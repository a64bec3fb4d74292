//! The motion-adaptive gain of the orientation filter.
use vstd::prelude::*;

use crate::fixed;
use crate::fixed::Fixed;
use crate::wide;
use crate::wide::{Long, Wide};

verus! {

/// Motion-adaptive filter gain.
///
/// The Madgwick filter trusts the accelerometer as a gravity reference. That
/// assumption only holds when the device isn't accelerating, so during fast
/// motion (especially translation) the accelerometer is unreliable.
///
/// While moving, the base gain is used. Once the device has been continuously
/// still for `still_min_s` seconds, the gain jumps to `beta_peak` (snapping the
/// estimate back to gravity quickly) and then decays exponentially back to the
/// base gain with time constant `decay_tau` seconds. This gives a fast correction
/// after motion stops without the steady-state noise a permanently high gain would
/// cause.
///
/// `still_min_s` exists because rhythmic motion (e.g. a walking robot's double-
/// support phase) contains brief instants that pass the stillness gate; without a
/// minimum still time each of those instants fires a burst of `beta_peak` that
/// yanks the estimate toward the motion-corrupted accelerometer, worse than a
/// constant gain. Set it longer than any quiet gap inside the motion (0.3–0.5 s for
/// walking); genuine standing exceeds it almost immediately.
#[derive(Debug, Clone, Copy)]
pub struct AdaptiveBeta {
    /// Peak gain applied once the device has been still for `still_min_s`.
    pub beta_peak: Fixed,
    /// Time constant (seconds) of the decay from `beta_peak` back to base gain.
    pub decay_tau: Fixed,
    /// Stillness gate: accel magnitude must be within this many g of 1.
    pub accel_tol_g: Fixed,
    /// Stillness gate: gyro magnitude must be below this, in rad/s.
    pub gyro_tol_rad_s: Fixed,
    /// Continuous stillness required before the gain boost engages (seconds).
    pub still_min_s: Fixed,
}

/// The gain to run the filter with.
#[derive(Debug, Clone, Copy, PartialEq, Eq, Structural)]
pub enum Gain {
    /// The base gain.
    Base(Fixed),
    /// The peak when the boost engages, decaying back to the base: `elapsed` seconds
    /// have passed since, of an exponential decay with time constant `tau`.
    Boost { base: Fixed, peak: Fixed, elapsed: Long, tau: Fixed },
}

/// `base + (peak - base) * decay`, to the nearest trillionth.
pub open spec fn blend(base: int, peak: int, decay: int) -> int {
    base + fixed::nearest((peak - base) * decay, fixed::ONE as int)
}

impl Gain {
    /// The gain as a number, with `decay` for what is left of a boost: the
    /// exponential of `-elapsed / tau`.
    pub open spec fn value(self, decay: int) -> int {
        match self {
            Gain::Base(base) => base.pico as int,
            Gain::Boost { base, peak, .. } => blend(base.pico as int, peak.pico as int, decay),
        }
    }

    /// The gain as a number, with `decay` for what is left of a boost: the
    /// exponential of `-elapsed / tau`.
    pub fn beta(&self, decay: Fixed) -> (beta: Long)
        ensures
            beta.value() == self.value(decay.pico as int),
    {
        match self {
            Gain::Base(base) => Long::of(*base),
            Gain::Boost { base, peak, .. } => boosted(*base, *peak, decay),
        }
    }
}

/// How far apart two numbers are.
fn distance(x: Fixed, y: Fixed) -> (d: u128)
    ensures
        d == fixed::absolute(x.pico - y.pico),
{
    if (x.pico < 0) != (y.pico < 0) {
        x.magnitude() + y.magnitude()
    } else if x.pico < y.pico {
        (y.pico - x.pico) as u128
    } else {
        (x.pico - y.pico) as u128
    }
}

/// What [`fixed::nearest`] makes of a quotient and a remainder.
proof fn lemma_rounding_by_remainder(p: int, q: int, rest: int)
    requires
        p == q * fixed::ONE + rest,
        0 <= rest < fixed::ONE,
    ensures
        fixed::nearest(p, fixed::ONE as int) == q + if 2 * rest >= fixed::ONE {
            1int
        } else {
            0int
        },
        fixed::nearest(-p, fixed::ONE as int) == -q - if 2 * rest > fixed::ONE {
            1int
        } else {
            0int
        },
{
    fixed::law_nearest_splits_off_whole_parts(q, rest, fixed::ONE as int);
    fixed::law_nearest_splits_off_whole_parts(-q, -rest, fixed::ONE as int);
    let d2: int = 2 * fixed::ONE;
    let (up, down): (int, int) = (2 * rest + fixed::ONE, -2 * rest + fixed::ONE);
    if 2 * rest >= fixed::ONE {
        vstd::arithmetic::div_mod::lemma_fundamental_div_mod_converse(up, d2, 1, up - d2);
    } else {
        vstd::arithmetic::div_mod::lemma_fundamental_div_mod_converse(up, d2, 0, up);
    }
    if 2 * rest > fixed::ONE {
        vstd::arithmetic::div_mod::lemma_fundamental_div_mod_converse(down, d2, -1, down + d2);
    } else {
        vstd::arithmetic::div_mod::lemma_fundamental_div_mod_converse(down, d2, 0, down);
    }
}

/// `base + (peak - base) * decay`.
fn boosted(base: Fixed, peak: Fixed, decay: Fixed) -> (beta: Long)
    ensures
        beta.value() == blend(base.pico as int, peak.pico as int, decay.pico as int),
{
    let rise: u128 = distance(base, peak);
    let part: u128 = decay.magnitude();
    let product = Wide::product(rise, part);
    let (q, rest) = product.divided_by_one();
    let upwards: bool = (peak.pico < base.pico) == (decay.pico < 0);
    let half: u128 = fixed::ONE as u128 / 2;
    proof {
        let (d, n, r): (int, int, int) = (peak.pico - base.pico, decay.pico as int, rise as int);
        lemma_rounding_by_remainder(product.value(), q.value(), rest as int);
        assert(d * n == if upwards {
            r * part
        } else {
            -(r * part)
        }) by (nonlinear_arith)
            requires
                r == fixed::absolute(d),
                part == fixed::absolute(n),
                upwards == ((d < 0) == (n < 0)),
        ;
    }
    if upwards {
        let up: u128 = if rest >= half {
            1
        } else {
            0
        };
        Long::of(base).raised_by(q.plus(Wide { high: 0, low: up }))
    } else {
        let down: u128 = if rest > half {
            1
        } else {
            0
        };
        Long::of(base).lowered_by(q.plus(Wide { high: 0, low: down }))
    }
}

/// The squared length of a vector.
pub open spec fn length_squared(v: (int, int, int)) -> int {
    v.0 * v.0 + v.1 * v.1 + v.2 * v.2
}

/// Whether a vector of that squared length is shorter than `bound`.
pub open spec fn is_shorter(squared: int, bound: int) -> bool {
    bound > 0 && squared < bound * bound
}

/// Whether the length of a vector of that squared length is less than `tol` away
/// from one.
pub open spec fn is_near_one(squared: int, tol: int) -> bool {
    &&& tol > 0
    &&& squared < (fixed::ONE + tol) * (fixed::ONE + tol)
    &&& tol > fixed::ONE || squared > (fixed::ONE - tol) * (fixed::ONE - tol)
}

/// The vector of three numbers.
pub open spec fn vector(v: [Fixed; 3]) -> (int, int, int) {
    fixed::values((v[0], v[1], v[2]))
}

impl AdaptiveBeta {
    /// The settings with these values.
    pub open spec fn of(
        beta_peak: Fixed,
        decay_tau: Fixed,
        accel_tol_g: Fixed,
        gyro_tol_rad_s: Fixed,
        still_min_s: Fixed,
    ) -> AdaptiveBeta {
        AdaptiveBeta { beta_peak, decay_tau, accel_tol_g, gyro_tol_rad_s, still_min_s }
    }

    /// The stillness gate: accelerometer magnitude within `accel_tol_g` of 1 g and
    /// gyroscope magnitude below `gyro_tol_rad_s`.
    pub open spec fn still(self, gyro: (int, int, int), accel: (int, int, int)) -> bool {
        &&& is_near_one(length_squared(accel), self.accel_tol_g.pico as int)
        &&& is_shorter(length_squared(gyro), self.gyro_tol_rad_s.pico as int)
    }

    /// The gain for a sample, with the still time that it brought about.
    pub open spec fn gain(self, base: Fixed, still: bool, time_still: int) -> Gain {
        if still && time_still >= self.still_min_s.pico {
            Gain::Boost {
                base,
                peak: self.beta_peak,
                elapsed: wide::long(
                    wide::clamp_long(time_still - self.still_min_s.pico),
                ),
                tau: self.decay_tau,
            }
        } else {
            Gain::Base(base)
        }
    }

    /// Whether the device is still.
    pub fn is_still(&self, gyro: [Fixed; 3], accel: [Fixed; 3]) -> (still: bool)
        ensures
            still == self.still(vector(gyro), vector(accel)),
    {
        near_one(squared_length(accel), self.accel_tol_g) && shorter(
            squared_length(gyro),
            self.gyro_tol_rad_s,
        )
    }
}

/// The time that the device has been continuously still after one more sample.
pub open spec fn still_time(before: int, still: bool, dt: int) -> int {
    if still {
        wide::clamp_long(before + dt)
    } else {
        0
    }
}

/// The square of a number.
fn square(x: Fixed) -> (s: Wide)
    ensures
        s.value() == x.pico * x.pico,
        s.value() <= wide::limb() * wide::limb() / 4,
{
    let m: u128 = x.magnitude();
    assert(m * m == x.pico * x.pico) by (nonlinear_arith)
        requires
            m == x.pico || m == -(x.pico as int),
    ;
    assert(m * m <= wide::limb() * wide::limb() / 4) by (nonlinear_arith)
        requires
            0 <= m <= 0x8000_0000_0000_0000_0000_0000_0000_0000,
    ;
    Wide::product(m, m)
}

/// The squared length of a vector.
pub(crate) fn squared_length(v: [Fixed; 3]) -> (s: Wide)
    ensures
        s.value() == length_squared(vector(v)),
{
    square(v[0]).plus(square(v[1])).plus(square(v[2]))
}

/// Whether a vector of that squared length is shorter than `bound`.
pub(crate) fn shorter(squared: Wide, bound: Fixed) -> (r: bool)
    ensures
        r == is_shorter(squared.value(), bound.pico as int),
{
    bound.pico > 0 && squared.is_less(square(bound))
}

/// Whether the length of a vector of that squared length is less than `tol` away
/// from one.
fn near_one(squared: Wide, tol: Fixed) -> (r: bool)
    ensures
        r == is_near_one(squared.value(), tol.pico as int),
{
    if tol.pico <= 0 {
        return false;
    }
    let outer: u128 = fixed::ONE as u128 + tol.pico as u128;
    if !squared.is_less(Wide::product(outer, outer)) {
        return false;
    }
    tol.pico > fixed::ONE || square(Fixed { pico: fixed::ONE - tol.pico }).is_less(squared)
}

/// Squares of magnitudes are in the order of the magnitudes.
proof fn lemma_squares_keep_order(m: real, bound: int)
    requires
        m >= 0 as real,
        bound >= 0,
    ensures
        m < (bound as real) <==> m * m < ((bound * bound) as real),
        m > (bound as real) <==> m * m > ((bound * bound) as real),
{
    let b: real = bound as real;
    assert((bound * bound) as real == b * b) by (nonlinear_arith)
        requires
            b == bound as real,
    ;
    assert(m < b <==> m * m < b * b) by (nonlinear_arith)
        requires
            m >= 0 as real,
            b >= 0 as real,
    ;
    assert(m > b <==> m * m > b * b) by (nonlinear_arith)
        requires
            m >= 0 as real,
            b >= 0 as real,
    ;
}

/// Stillness is a matter of magnitudes: for the length `m` of a vector, what is
/// asked of its square means `|m - 1| < tol` and `m < tol`.
pub proof fn law_stillness_compares_magnitudes(m: real, squared: int, tol: int)
    requires
        m >= 0 as real,
        m * m == squared as real,
    ensures
        is_near_one(squared, tol) <==> (m - (fixed::ONE as real) < (tol as real)
            && (fixed::ONE as real) - m < (tol as real)),
        is_shorter(squared, tol) <==> m < (tol as real),
{
    if tol > 0 {
        lemma_squares_keep_order(m, tol);
        lemma_squares_keep_order(m, fixed::ONE + tol);
        if tol <= fixed::ONE {
            lemma_squares_keep_order(m, fixed::ONE - tol);
        }
    }
}

/// A boost is the peak before anything has decayed, and the base when all has.
pub proof fn law_boost_decays_from_peak_to_base(base: int, peak: int)
    ensures
        blend(base, peak, fixed::ONE as int) == peak,
        blend(base, peak, 0) == base,
{
    fixed::law_nearest_keeps_exact_quotients(peak - base, fixed::ONE as int);
    fixed::law_nearest_keeps_exact_quotients(0, fixed::ONE as int);
    assert((peak - base) * 0 == 0);
}

/// The less of a boost is left, the nearer it is to the base.
pub proof fn law_boost_approaches_the_base(base: int, peak: int, later: int, earlier: int)
    requires
        later <= earlier,
    ensures
        base <= peak ==> blend(base, peak, later) <= blend(base, peak, earlier),
        peak <= base ==> blend(base, peak, earlier) <= blend(base, peak, later),
{
    let rise = peak - base;
    if base <= peak {
        assert(rise * later <= rise * earlier) by (nonlinear_arith)
            requires
                rise >= 0,
                later <= earlier,
        ;
        fixed::law_nearest_keeps_order(rise * later, rise * earlier, fixed::ONE as int);
    }
    if peak <= base {
        assert(rise * earlier <= rise * later) by (nonlinear_arith)
            requires
                rise <= 0,
                later <= earlier,
        ;
        fixed::law_nearest_keeps_order(rise * earlier, rise * later, fixed::ONE as int);
    }
}

/// A decaying boost never leaves the range between base and peak.
pub proof fn law_boost_lies_between_base_and_peak(base: int, peak: int, decay: int)
    requires
        0 <= decay <= fixed::ONE,
    ensures
        base <= peak ==> base <= blend(base, peak, decay) <= peak,
        peak <= base ==> peak <= blend(base, peak, decay) <= base,
{
    law_boost_decays_from_peak_to_base(base, peak);
    law_boost_approaches_the_base(base, peak, 0, decay);
    law_boost_approaches_the_base(base, peak, decay, fixed::ONE as int);
}

/// The stillness gate, on the components of a sample: for the length `m` of the
/// acceleration and the length `w` of the angular rate, the device is still exactly
/// when `|m - 1| < accel_tol_g` and `w < gyro_tol_rad_s`.
pub proof fn law_still_means_at_one_g_and_not_turning(
    a: AdaptiveBeta,
    gyro: [Fixed; 3],
    accel: [Fixed; 3],
    m: real,
    w: real,
)
    requires
        m >= 0 as real,
        m * m == ((accel[0].pico * accel[0].pico + accel[1].pico * accel[1].pico
            + accel[2].pico * accel[2].pico) as real),
        w >= 0 as real,
        w * w == ((gyro[0].pico * gyro[0].pico + gyro[1].pico * gyro[1].pico
            + gyro[2].pico * gyro[2].pico) as real),
    ensures
        a.still(vector(gyro), vector(accel)) <==> {
            &&& m - (1_000_000_000_000int as real) < (a.accel_tol_g.pico as real)
            &&& (1_000_000_000_000int as real) - m < (a.accel_tol_g.pico as real)
            &&& w < (a.gyro_tol_rad_s.pico as real)
        },
{
    let s = accel[0].pico * accel[0].pico + accel[1].pico * accel[1].pico + accel[2].pico
        * accel[2].pico;
    let t = gyro[0].pico * gyro[0].pico + gyro[1].pico * gyro[1].pico + gyro[2].pico
        * gyro[2].pico;
    law_stillness_compares_magnitudes(m, s, a.accel_tol_g.pico as int);
    law_stillness_compares_magnitudes(w, t, a.gyro_tol_rad_s.pico as int);
}

/// Stillness does not depend on how the device is turned: exchanging two components
/// of a vector, or negating one, changes nothing.
pub proof fn law_stillness_has_no_direction(
    a: AdaptiveBeta,
    gyro: (int, int, int),
    accel: (int, int, int),
)
    ensures
        a.still(gyro, accel) == a.still(gyro, (accel.1, accel.0, accel.2)),
        a.still(gyro, accel) == a.still(gyro, (accel.0, accel.2, accel.1)),
        a.still(gyro, accel) == a.still(gyro, (-accel.0, accel.1, accel.2)),
        a.still(gyro, accel) == a.still((gyro.1, gyro.0, gyro.2), accel),
        a.still(gyro, accel) == a.still((gyro.0, gyro.2, gyro.1), accel),
        a.still(gyro, accel) == a.still((-gyro.0, gyro.1, gyro.2), accel),
{
    assert((-accel.0) * (-accel.0) == accel.0 * accel.0) by (nonlinear_arith);
    assert((-gyro.0) * (-gyro.0) == gyro.0 * gyro.0) by (nonlinear_arith);
}

/// A wider gate lets every still sample through that a narrower one does.
pub proof fn law_wider_gate_is_more_still(
    narrow: AdaptiveBeta,
    wide: AdaptiveBeta,
    gyro: (int, int, int),
    accel: (int, int, int),
)
    requires
        narrow.accel_tol_g.pico <= wide.accel_tol_g.pico,
        narrow.gyro_tol_rad_s.pico <= wide.gyro_tol_rad_s.pico,
        narrow.still(gyro, accel),
    ensures
        wide.still(gyro, accel),
{
    let (n, w): (int, int) = (narrow.accel_tol_g.pico as int, wide.accel_tol_g.pico as int);
    let (k, l): (int, int) = (
        narrow.gyro_tol_rad_s.pico as int,
        wide.gyro_tol_rad_s.pico as int,
    );
    let one: int = fixed::ONE as int;
    assert((one + n) * (one + n) <= (one + w) * (one + w)) by (nonlinear_arith)
        requires
            0 < n <= w,
            one > 0,
    ;
    assert(w <= one ==> (one - w) * (one - w) <= (one - n) * (one - n)) by (nonlinear_arith)
        requires
            0 < n <= w,
            one > 0,
    ;
    assert(k * k <= l * l) by (nonlinear_arith)
        requires
            0 < k <= l,
    ;
}

/// The gain as a number: the base gain itself, or for a boost the trillionth that is
/// nearest to `base + (peak - base) * decay`.
pub proof fn law_boost_is_base_plus_part_of_the_rise(gain: Gain, decay: Fixed, beta: Long)
    requires
        beta.value() == gain.value(decay.pico as int),
    ensures
        match gain {
            Gain::Base(base) => beta.value() == base.pico,
            Gain::Boost { base, peak, .. } => {
                let off = 1_000_000_000_000 * (beta.value() - base.pico) - (peak.pico - base.pico)
                    * decay.pico;
                -1_000_000_000_000 < 2 * off <= 1_000_000_000_000
            },
        },
{
    if let Gain::Boost { base, peak, .. } = gain {
        let part = (peak.pico - base.pico) * decay.pico;
        fixed::law_nearest_is_within_half(part, fixed::ONE as int);
    }
}

} // verus!
