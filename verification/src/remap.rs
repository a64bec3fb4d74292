//! Software axis remapping.
use vstd::multiset::Multiset;
use vstd::prelude::*;

use crate::fixed;
use crate::fixed::Fixed;

verus! {

/// Sign multiplier of an output axis.
#[derive(Debug, Clone, Copy, PartialEq, Eq, Structural)]
pub enum Sign {
    /// Multiply by `1`.
    Positive,
    /// Multiply by `-1`.
    Negative,
}

impl Sign {
    /// The product of the sign and a number.
    pub open spec fn times(self, x: int) -> int {
        match self {
            Sign::Positive => x,
            Sign::Negative => -x,
        }
    }
}

/// Software axis remapping applied after reading raw sensor data.
///
/// Defines a permutation and optional sign flip for each output axis,
/// compensating for the physical mounting orientation of the IMU on the board.
///
/// Rotating 90° clockwise around Z, viewed from the top, sends sensor X to output
/// -Y and sensor Y to output X: the axes are `[1, 0, 2]`, and the sign of the
/// second output is negative.
#[derive(Debug, Clone, Copy)]
pub struct AxisRemap {
    /// Source axis index for each output axis `[x_out, y_out, z_out]`.
    /// `0` is sensor X, `1` is sensor Y, `2` is sensor Z.
    pub axes: [usize; 3],
    /// Sign multiplier for each output axis.
    pub signs: [Sign; 3],
}

impl AxisRemap {
    /// Each output axis names an axis of the sensor.
    pub open spec fn wf(self) -> bool {
        self.axes[0] < 3 && self.axes[1] < 3 && self.axes[2] < 3
    }

    /// Axes unchanged, no sign flips.
    pub open spec fn is_identity(self) -> bool {
        &&& self.axes[0] == 0
        &&& self.axes[1] == 1
        &&& self.axes[2] == 2
        &&& self.signs[0] == Sign::Positive
        &&& self.signs[1] == Sign::Positive
        &&& self.signs[2] == Sign::Positive
    }

    /// No sensor axis feeds two output axes.
    pub open spec fn is_permutation(self) -> bool {
        &&& self.wf()
        &&& self.axes[0] != self.axes[1]
        &&& self.axes[0] != self.axes[2]
        &&& self.axes[1] != self.axes[2]
    }

    /// Whether a remapping sends each output axis of this one back to the sensor
    /// axis that it came from, with the same sign.
    pub open spec fn is_undone_by(self, inverse: AxisRemap) -> bool {
        forall|i: int| #![trigger self.axes[i]]
            0 <= i < 3 ==> {
                &&& inverse.axes[self.axes[i] as int] == i
                &&& inverse.signs[self.axes[i] as int] == self.signs[i]
            }
    }

    /// The vector that a sensor vector is mapped to.
    pub open spec fn remapped(self, v: (int, int, int)) -> (int, int, int) {
        (
            self.signs[0].times(fixed::along(v, self.axes[0] as int)),
            self.signs[1].times(fixed::along(v, self.axes[1] as int)),
            self.signs[2].times(fixed::along(v, self.axes[2] as int)),
        )
    }

    /// Apply the remapping to a raw `(x, y, z)` reading.
    pub fn apply(&self, v: (Fixed, Fixed, Fixed)) -> (out: (Fixed, Fixed, Fixed))
        requires
            self.wf(),
        ensures
            fixed::values(out) == fixed::clamp_each(self.remapped(fixed::values(v))),
            out.0.pico == turned(self.signs[0], seq![v.0, v.1, v.2][self.axes[0] as int].pico),
            out.1.pico == turned(self.signs[1], seq![v.0, v.1, v.2][self.axes[1] as int].pico),
            out.2.pico == turned(self.signs[2], seq![v.0, v.1, v.2][self.axes[2] as int].pico),
    {
        let arr: [Fixed; 3] = [v.0, v.1, v.2];
        (
            signed(self.signs[0], arr[self.axes[0]]),
            signed(self.signs[1], arr[self.axes[1]]),
            signed(self.signs[2], arr[self.axes[2]]),
        )
    }
}

/// A number that is kept or negated. The one that has no negative becomes the
/// largest one.
pub open spec fn turned(sign: Sign, x: i128) -> int {
    match sign {
        Sign::Positive => x as int,
        Sign::Negative => if x == i128::MIN {
            i128::MAX as int
        } else {
            -x
        },
    }
}

impl Default for AxisRemap {
    /// Identity mapping: axes unchanged, no sign flips.
    fn default() -> (remap: Self)
        ensures
            remap.is_identity(),
            remap.axes@ == seq![0usize, 1usize, 2usize],
            remap.signs@ == seq![Sign::Positive, Sign::Positive, Sign::Positive],
    {
        AxisRemap {
            axes: [0, 1, 2],
            signs: [Sign::Positive, Sign::Positive, Sign::Positive],
        }
    }
}

/// The product of a sign and a number.
fn signed(sign: Sign, x: Fixed) -> (r: Fixed)
    ensures
        r.pico == fixed::clamp(sign.times(x.pico as int)),
{
    match sign {
        Sign::Positive => x,
        Sign::Negative => x.negated(),
    }
}

/// The identity mapping changes no vector.
pub proof fn law_identity_changes_nothing(remap: AxisRemap, v: (int, int, int))
    requires
        remap.is_identity(),
    ensures
        remap.remapped(v) == v,
{
}

/// A permutation of the axes, with any signs, keeps the length of every vector.
pub proof fn law_permutation_keeps_length(remap: AxisRemap, v: (int, int, int))
    requires
        remap.is_permutation(),
    ensures
        ({
            let w = remap.remapped(v);
            w.0 * w.0 + w.1 * w.1 + w.2 * w.2 == v.0 * v.0 + v.1 * v.1 + v.2 * v.2
        }),
{
    let w = remap.remapped(v);
    let a = fixed::along(v, remap.axes[0] as int);
    let b = fixed::along(v, remap.axes[1] as int);
    let c = fixed::along(v, remap.axes[2] as int);
    assert(w.0 * w.0 == a * a) by (nonlinear_arith)
        requires
            w.0 == a || w.0 == -a,
    ;
    assert(w.1 * w.1 == b * b) by (nonlinear_arith)
        requires
            w.1 == b || w.1 == -b,
    ;
    assert(w.2 * w.2 == c * c) by (nonlinear_arith)
        requires
            w.2 == c || w.2 == -c,
    ;
}

/// A permutation of the axes, with any signs, loses nothing: two readings that
/// are mapped to the same vector are the same reading.
pub proof fn law_permutation_loses_nothing(
    remap: AxisRemap,
    v: (int, int, int),
    w: (int, int, int),
)
    requires
        remap.is_permutation(),
        remap.remapped(v) == remap.remapped(w),
    ensures
        v == w,
{
    let (a, b, c) = (remap.axes[0] as int, remap.axes[1] as int, remap.axes[2] as int);
    assert(fixed::along(v, a) == fixed::along(w, a));
    assert(fixed::along(v, b) == fixed::along(w, b));
    assert(fixed::along(v, c) == fixed::along(w, c));
}

/// The inverse of a permutation gives every vector back, and is a permutation too.
pub proof fn law_inverse_gives_the_vector_back(
    remap: AxisRemap,
    inverse: AxisRemap,
    v: (int, int, int),
)
    requires
        remap.is_permutation(),
        remap.is_undone_by(inverse),
    ensures
        inverse.remapped(remap.remapped(v)) == v,
        inverse.is_permutation(),
{
    let (a, b, c) = (remap.axes[0] as int, remap.axes[1] as int, remap.axes[2] as int);
    assert(inverse.axes[a] == 0 && inverse.signs[a] == remap.signs[0]);
    assert(inverse.axes[b] == 1 && inverse.signs[b] == remap.signs[1]);
    assert(inverse.axes[c] == 2 && inverse.signs[c] == remap.signs[2]);
}

/// Every permutation has an inverse.
pub proof fn law_permutation_has_an_inverse(remap: AxisRemap) -> (inverse: AxisRemap)
    requires
        remap.is_permutation(),
    ensures
        remap.is_undone_by(inverse),
{
    let axis_of = |i: int|
        if remap.axes[0] == i {
            0usize
        } else if remap.axes[1] == i {
            1usize
        } else {
            2usize
        };
    let sign_of = |i: int| remap.signs[axis_of(i) as int];
    let inverse = AxisRemap {
        axes: [axis_of(0), axis_of(1), axis_of(2)],
        signs: [sign_of(0), sign_of(1), sign_of(2)],
    };
    inverse
}

/// Applying a remapping and then its inverse gives a reading back exactly, unless
/// the one number that has no negative would have to be negated.
pub proof fn law_reading_survives_the_round_trip(
    remap: AxisRemap,
    inverse: AxisRemap,
    v: (int, int, int),
)
    requires
        remap.is_permutation(),
        remap.is_undone_by(inverse),
        fixed::clamp_each(v) == v,
        forall|i: int| #![trigger remap.axes[i]]
            0 <= i < 3 && remap.signs[i] == Sign::Negative ==> fixed::along(
                v,
                remap.axes[i] as int,
            ) != i128::MIN,
    ensures
        fixed::clamp_each(inverse.remapped(fixed::clamp_each(remap.remapped(v)))) == v,
{
    law_inverse_gives_the_vector_back(remap, inverse, v);
    assert(remap.axes[0] < 3 && remap.axes[1] < 3 && remap.axes[2] < 3);
}

/// The components of a vector without their signs, in no order.
pub open spec fn magnitudes(v: (int, int, int)) -> Multiset<int> {
    Multiset::empty().insert(fixed::absolute(v.0)).insert(fixed::absolute(v.1)).insert(
        fixed::absolute(v.2),
    )
}

/// A permutation of the axes, with any signs, neither loses nor duplicates nor
/// scales a component.
pub proof fn law_permutation_keeps_magnitudes(remap: AxisRemap, v: (int, int, int))
    requires
        remap.is_permutation(),
    ensures
        magnitudes(remap.remapped(v)) == magnitudes(v),
{
    assert(magnitudes(remap.remapped(v)) =~= magnitudes(v));
}

/// Each output of a remapping is the reading along the sensor axis that it names,
/// kept where its sign is positive and negated where it is negative. The number
/// without a negative becomes the largest one.
pub proof fn law_output_is_its_axis_times_its_sign(
    remap: AxisRemap,
    v: (Fixed, Fixed, Fixed),
    out: (Fixed, Fixed, Fixed),
    i: int,
)
    requires
        remap.axes[0] < 3,
        remap.axes[1] < 3,
        remap.axes[2] < 3,
        fixed::values(out) == fixed::clamp_each(remap.remapped(fixed::values(v))),
        0 <= i < 3,
    ensures
        ({
            let from = seq![v.0.pico, v.1.pico, v.2.pico][remap.axes[i] as int];
            let to = seq![out.0.pico, out.1.pico, out.2.pico][i];
            &&& remap.signs[i] == Sign::Positive ==> to == from
            &&& remap.signs[i] == Sign::Negative ==> if from == i128::MIN {
                to == i128::MAX
            } else {
                to == -from
            }
        }),
{
    assert(i == 0 || i == 1 || i == 2);
    assert(remap.axes[i] == 0 || remap.axes[i] == 1 || remap.axes[i] == 2);
}

/// Flipping the sign of one output negates that output and leaves the other two.
pub proof fn law_sign_flips_one_output(
    remap: AxisRemap,
    flipped: AxisRemap,
    v: (int, int, int),
    i: int,
)
    requires
        remap.wf(),
        0 <= i < 3,
        flipped.axes == remap.axes,
        flipped.signs[i] != remap.signs[i],
        forall|j: int| 0 <= j < 3 && j != i ==> flipped.signs[j] == remap.signs[j],
    ensures
        ({
            let (w, f) = (remap.remapped(v), flipped.remapped(v));
            &&& i == 0 ==> f == (-w.0, w.1, w.2)
            &&& i == 1 ==> f == (w.0, -w.1, w.2)
            &&& i == 2 ==> f == (w.0, w.1, -w.2)
        }),
{
    assert(i == 0 || i == 1 || i == 2);
    assert(i != 0 ==> flipped.signs[0] == remap.signs[0]);
    assert(i != 1 ==> flipped.signs[1] == remap.signs[1]);
    assert(i != 2 ==> flipped.signs[2] == remap.signs[2]);
}

/// A remapping is linear: that of a sum is the sum of those, and that of a multiple
/// the multiple.
pub proof fn law_remapping_is_linear(
    remap: AxisRemap,
    v: (int, int, int),
    w: (int, int, int),
    k: int,
)
    requires
        remap.wf(),
    ensures
        ({
            let (a, b) = (remap.remapped(v), remap.remapped(w));
            remap.remapped((v.0 + w.0, v.1 + w.1, v.2 + w.2)) == (
                a.0 + b.0,
                a.1 + b.1,
                a.2 + b.2,
            )
        }),
        ({
            let a = remap.remapped(v);
            remap.remapped((v.0 * k, v.1 * k, v.2 * k)) == (a.0 * k, a.1 * k, a.2 * k)
        }),
{
    assert((-v.0) * k == -(v.0 * k)) by (nonlinear_arith);
    assert((-v.1) * k == -(v.1 * k)) by (nonlinear_arith);
    assert((-v.2) * k == -(v.2 * k)) by (nonlinear_arith);
}

/// What a remapping must be: every output names one of the three axes of the sensor.
pub proof fn law_remap_names_sensor_axes(remap: AxisRemap)
    ensures
        remap.wf() <==> (forall|i: int| 0 <= i < 3 ==> 0 <= #[trigger] remap.axes[i] <= 2),
{
    if forall|i: int| 0 <= i < 3 ==> 0 <= #[trigger] remap.axes[i] <= 2 {
        assert(remap.axes[0] <= 2 && remap.axes[1] <= 2 && remap.axes[2] <= 2);
    }
}

} // verus!
