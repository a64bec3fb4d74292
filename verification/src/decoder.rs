//! Turning raw output-register bytes into physical samples.
use vstd::prelude::*;

use crate::config::{AccRange, GyroRange};
use crate::fixed;
use crate::fixed::Fixed;
use crate::remap::{AxisRemap, Sign};

verus! {

/// Numerator of π/180, the radians in a degree, to eighteen decimals.
pub const RADIANS_PER_DEGREE: i128 = 17_453_292_519_943_296;

/// Denominator that goes with [`RADIANS_PER_DEGREE`].
pub const RADIANS_SCALE: i128 = 1_000_000_000_000_000_000;

/// The signed number that a low and a high register byte hold: sixteen bits,
/// little-endian, two's complement.
pub open spec fn counts(low: u8, high: u8) -> int {
    let unsigned = low + 256 * high;
    if unsigned < 32_768 {
        unsigned
    } else {
        unsigned - 65_536
    }
}

/// The three counts of an output block `[xl, xh, yl, yh, zl, zh]`.
pub open spec fn axis_counts(b: Seq<u8>) -> (int, int, int) {
    (counts(b[0], b[1]), counts(b[2], b[3]), counts(b[4], b[5]))
}

/// A vector whose components are multiplied by one factor.
pub open spec fn scaled(v: (int, int, int), factor: int) -> (int, int, int) {
    (v.0 * factor, v.1 * factor, v.2 * factor)
}

/// The difference of two vectors.
pub open spec fn difference(v: (int, int, int), w: (int, int, int)) -> (int, int, int) {
    (v.0 - w.0, v.1 - w.1, v.2 - w.2)
}

/// The angular rate in °/s that six gyroscope bytes stand for before any
/// correction, in the frame of the sensor.
pub open spec fn sensor_rate(range: GyroRange, b: Seq<u8>) -> (int, int, int) {
    scaled(axis_counts(b), range.micro_dps() * 1_000_000)
}

/// An angle in degrees as an angle in radians, to the nearest trillionth.
pub open spec fn radians(degrees: int) -> int {
    fixed::nearest(degrees * RADIANS_PER_DEGREE, RADIANS_SCALE as int)
}

/// A vector whose components are converted from degrees to radians.
pub open spec fn radians_each(v: (int, int, int)) -> (int, int, int) {
    (radians(v.0), radians(v.1), radians(v.2))
}

/// Reads a little-endian two's complement number.
pub(crate) fn read_counts(low: u8, high: u8) -> (n: i16)
    ensures
        n == counts(low, high),
{
    let unsigned: i32 = low as i32 + 256 * (high as i32);
    if unsigned < 32_768 {
        unsigned as i16
    } else {
        (unsigned - 65_536) as i16
    }
}

/// A register reading times the weight of its least significant bit.
fn weigh(n: i16, weight: i128) -> (r: Fixed)
    requires
        0 <= weight <= 100_000_000_000,
    ensures
        r.pico == n * weight,
        -3_276_800_000_000_000 <= r.pico <= 3_276_800_000_000_000,
{
    assert(-3_276_800_000_000_000 <= n * weight <= 3_276_800_000_000_000) by (nonlinear_arith)
        requires
            0 <= weight <= 100_000_000_000,
            -32_768 <= n <= 32_767,
    ;
    Fixed { pico: n as i128 * weight }
}

/// Converts degrees to radians.
pub fn to_radians(degrees: Fixed) -> (r: Fixed)
    ensures
        r.pico == radians(degrees.pico as int),
{
    let scale: u128 = RADIANS_SCALE as u128;
    let m: u128 = degrees.magnitude();
    let whole: i128 = (m / scale) as i128 * RADIANS_PER_DEGREE;
    let rest: i128 = (m % scale) as i128 * RADIANS_PER_DEGREE;
    proof {
        let (w, n, d): (int, int, int) = (whole as int, rest as int, RADIANS_SCALE as int);
        assert(m * RADIANS_PER_DEGREE == w * d + n);
        assert(-(m as int) * RADIANS_PER_DEGREE == (-w) * d + (-n));
        fixed::law_nearest_splits_off_whole_parts(w, n, d);
        fixed::law_nearest_splits_off_whole_parts(-w, -n, d);
        fixed::law_nearest_is_within_half(n, d);
        fixed::law_nearest_is_within_half(-n, d);
    }
    if degrees.pico >= 0 {
        Fixed { pico: whole + fixed::divide_to_nearest(rest, RADIANS_SCALE) }
    } else {
        Fixed { pico: fixed::divide_to_nearest(-rest, RADIANS_SCALE) - whole }
    }
}

/// A decoded IMU sample in physical units, after axis remapping and gyroscope
/// bias correction.
#[derive(Debug, Clone, Copy)]
pub struct ImuSample {
    /// Gyroscope `[x, y, z]` in **rad/s**.
    pub gyro_rads: [Fixed; 3],
    /// Accelerometer `[x, y, z]` in **g**.
    pub accel_g: [Fixed; 3],
}

impl ImuSample {
    /// The angular rate of the sample.
    pub open spec fn gyro(self) -> (int, int, int) {
        fixed::values((self.gyro_rads[0], self.gyro_rads[1], self.gyro_rads[2]))
    }

    /// The acceleration of the sample.
    pub open spec fn accel(self) -> (int, int, int) {
        fixed::values((self.accel_g[0], self.accel_g[1], self.accel_g[2]))
    }
}

/// Turns raw output-register bytes into physical, remapped, bias-corrected
/// samples, with no bus and no transport.
///
/// Use this when the raw registers arrive from somewhere other than the I2C bus
/// of a driver, for instance relayed over another bus.
#[derive(Debug, Clone, Copy)]
pub struct SampleDecoder {
    pub acc_range: AccRange,
    pub gyro_range: GyroRange,
    /// Software axis remap applied to every reading.
    pub axis_remap: AxisRemap,
    /// Gyroscope zero-rate bias in °/s (raw sensor frame), subtracted before remap.
    pub gyro_bias_dps: (Fixed, Fixed, Fixed),
}

impl SampleDecoder {
    /// The acceleration in g that six accelerometer bytes stand for.
    pub open spec fn acceleration(self, b: Seq<u8>) -> (int, int, int) {
        self.axis_remap.remapped(scaled(axis_counts(b), self.acc_range.micro_g() * 1_000_000))
    }

    /// The angular rate in °/s that six gyroscope bytes stand for: the bias is
    /// subtracted in the frame of the sensor, then the axes are remapped.
    pub open spec fn rate_dps(self, b: Seq<u8>) -> (int, int, int) {
        let unbiased = fixed::clamp_each(
            difference(sensor_rate(self.gyro_range, b), fixed::values(self.gyro_bias_dps)),
        );
        fixed::clamp_each(self.axis_remap.remapped(unbiased))
    }

    /// The angular rate in rad/s that six gyroscope bytes stand for.
    pub open spec fn rate_rads(self, b: Seq<u8>) -> (int, int, int) {
        radians_each(self.rate_dps(b))
    }

    /// Whether a sample is that of a block, gyroscope first.
    pub open spec fn is_sample_of(self, b: Seq<u8>, sample: ImuSample) -> bool {
        &&& sample.gyro() == self.rate_rads(b.subrange(0, 6))
        &&& sample.accel() == self.acceleration(b.subrange(6, 12))
    }

    /// Decoder with identity remap and zero bias for the given ranges.
    pub fn new(acc_range: AccRange, gyro_range: GyroRange) -> (decoder: Self)
        ensures
            decoder.acc_range == acc_range,
            decoder.gyro_range == gyro_range,
            decoder.axis_remap.is_identity(),
            fixed::values(decoder.gyro_bias_dps) == (0int, 0int, 0int),
    {
        Self {
            acc_range,
            gyro_range,
            axis_remap: AxisRemap::default(),
            gyro_bias_dps: (Fixed::zero(), Fixed::zero(), Fixed::zero()),
        }
    }

    /// Decode 6 accelerometer bytes `[xl,xh,yl,yh,zl,zh]` to `(x,y,z)` in g.
    pub fn decode_accelerometer(&self, b: &[u8; 6]) -> (g: (Fixed, Fixed, Fixed))
        requires
            self.axis_remap.wf(),
        ensures
            fixed::values(g) == self.acceleration(b@),
    {
        let scale: i128 = self.acc_range.mg_per_lsb().pico / 1000;
        let x: Fixed = weigh(read_counts(b[0], b[1]), scale);
        let y: Fixed = weigh(read_counts(b[2], b[3]), scale);
        let z: Fixed = weigh(read_counts(b[4], b[5]), scale);
        self.axis_remap.apply((x, y, z))
    }

    /// Decode 6 gyroscope bytes `[xl,xh,yl,yh,zl,zh]` to `(x,y,z)` in °/s.
    pub fn decode_gyroscope_dps(&self, b: &[u8; 6]) -> (dps: (Fixed, Fixed, Fixed))
        requires
            self.axis_remap.wf(),
        ensures
            fixed::values(dps) == self.rate_dps(b@),
    {
        let scale: i128 = self.gyro_range.mdps_per_lsb().pico / 1000;
        let x: Fixed = weigh(read_counts(b[0], b[1]), scale).minus(self.gyro_bias_dps.0);
        let y: Fixed = weigh(read_counts(b[2], b[3]), scale).minus(self.gyro_bias_dps.1);
        let z: Fixed = weigh(read_counts(b[4], b[5]), scale).minus(self.gyro_bias_dps.2);
        self.axis_remap.apply((x, y, z))
    }

    /// Decode 6 gyroscope bytes to `(x,y,z)` in rad/s.
    pub fn decode_gyroscope(&self, b: &[u8; 6]) -> (rads: (Fixed, Fixed, Fixed))
        requires
            self.axis_remap.wf(),
        ensures
            fixed::values(rads) == self.rate_rads(b@),
    {
        let (x, y, z) = self.decode_gyroscope_dps(b);
        (to_radians(x), to_radians(y), to_radians(z))
    }

    /// Decode a 12-byte block ordered gyroscope X..Z then accelerometer X..Z, the
    /// order of the output registers `OUTX_L_G..OUTZ_H_XL` and so the layout of a
    /// single burst read. Gives the gyroscope in rad/s and the accelerometer in g.
    pub fn decode_block(&self, b: &[u8; 12]) -> (sample: ImuSample)
        requires
            self.axis_remap.wf(),
        ensures
            sample.gyro() == self.rate_rads(b@.subrange(0, 6)),
            sample.accel() == self.acceleration(b@.subrange(6, 12)),
            self.is_sample_of(b@, sample),
    {
        let gyro_bytes: [u8; 6] = [b[0], b[1], b[2], b[3], b[4], b[5]];
        let accel_bytes: [u8; 6] = [b[6], b[7], b[8], b[9], b[10], b[11]];
        let g = self.decode_gyroscope(&gyro_bytes);
        let a = self.decode_accelerometer(&accel_bytes);
        assert(gyro_bytes@ =~= b@.subrange(0, 6));
        assert(accel_bytes@ =~= b@.subrange(6, 12));
        ImuSample { gyro_rads: [g.0, g.1, g.2], accel_g: [a.0, a.1, a.2] }
    }
}

/// Every sixteen-bit number is read back from its two's complement bytes, low
/// byte first.
pub proof fn law_counts_read_back_every_number(n: i16)
    ensures
        counts((n as int % 65_536 % 256) as u8, (n as int % 65_536 / 256) as u8) == n,
{
}

/// No pair of bytes gives a number outside sixteen bits.
pub proof fn law_counts_fit(low: u8, high: u8)
    ensures
        i16::MIN <= counts(low, high) <= i16::MAX,
{
}

/// Where the difference of reading and bias can be held with either sign, nothing
/// saturates: the decoded rate is exactly that difference, remapped.
pub proof fn law_rate_is_exact(decoder: SampleDecoder, b: Seq<u8>)
    requires
        decoder.axis_remap.wf(),
        ({
            let d = difference(
                sensor_rate(decoder.gyro_range, b),
                fixed::values(decoder.gyro_bias_dps),
            );
            &&& -i128::MAX <= d.0 <= i128::MAX
            &&& -i128::MAX <= d.1 <= i128::MAX
            &&& -i128::MAX <= d.2 <= i128::MAX
        }),
    ensures
        decoder.rate_dps(b) == decoder.axis_remap.remapped(
            difference(
                sensor_rate(decoder.gyro_range, b),
                fixed::values(decoder.gyro_bias_dps),
            ),
        ),
{
}

/// With a bias of up to `1e26` degrees per second no reading saturates.
pub proof fn law_ordinary_bias_never_saturates(decoder: SampleDecoder, b: Seq<u8>)
    requires
        decoder.axis_remap.wf(),
        -largest_bias() <= decoder.gyro_bias_dps.0.pico <= largest_bias(),
        -largest_bias() <= decoder.gyro_bias_dps.1.pico <= largest_bias(),
        -largest_bias() <= decoder.gyro_bias_dps.2.pico <= largest_bias(),
    ensures
        decoder.rate_dps(b) == decoder.axis_remap.remapped(
            difference(
                sensor_rate(decoder.gyro_range, b),
                fixed::values(decoder.gyro_bias_dps),
            ),
        ),
{
    lemma_sensor_rate_is_bounded(decoder.gyro_range, b);
    law_rate_is_exact(decoder, b);
}

/// A bias of `1e26` degrees per second.
pub open spec fn largest_bias() -> int {
    100_000_000_000_000_000_000_000_000 * fixed::ONE
}

/// Whether a number is another one, or stands for it at the end of the range, with
/// no more than the largest reading between the two.
pub open spec fn is_nearly(held: int, exact: int) -> bool {
    ||| held == exact
    ||| (held <= -i128::MAX || held >= i128::MAX) && -rate_bound() - 1 <= held - exact
        <= rate_bound() + 1
}

/// Whatever the bias, the decoded rate is the remapped difference of reading and
/// bias, or is off by no more than the largest reading where that difference is
/// beyond `1.7e26`: a part in `10^22`.
pub proof fn law_saturation_is_negligible(decoder: SampleDecoder, b: Seq<u8>)
    requires
        decoder.axis_remap.wf(),
    ensures
        ({
            let exact = decoder.axis_remap.remapped(
                difference(
                    sensor_rate(decoder.gyro_range, b),
                    fixed::values(decoder.gyro_bias_dps),
                ),
            );
            let held = decoder.rate_dps(b);
            &&& is_nearly(held.0, exact.0)
            &&& is_nearly(held.1, exact.1)
            &&& is_nearly(held.2, exact.2)
        }),
{
    lemma_sensor_rate_is_bounded(decoder.gyro_range, b);
}

/// The conversion to radians is off by half a trillionth at most.
pub proof fn law_radians_are_nearest(degrees: int)
    ensures
        -RADIANS_SCALE <= 2 * (radians(degrees) * RADIANS_SCALE - degrees * RADIANS_PER_DEGREE)
            <= RADIANS_SCALE,
{
    fixed::law_nearest_is_within_half(degrees * RADIANS_PER_DEGREE, RADIANS_SCALE as int);
}

/// No degrees are no radians.
pub proof fn lemma_no_rotation_is_zero_radians()
    ensures
        radians(0) == 0,
{
    fixed::law_nearest_keeps_exact_quotients(0, RADIANS_SCALE as int);
    assert(0 * RADIANS_PER_DEGREE == 0 && 0 * RADIANS_SCALE == 0);
}

/// The largest rate that a gyroscope register can stand for, 2293.76 °/s.
pub open spec fn rate_bound() -> int {
    2_293_760_000_000_000
}

/// No register value stands for a rate beyond [`rate_bound`].
pub proof fn lemma_sensor_rate_is_bounded(range: GyroRange, b: Seq<u8>)
    ensures
        -rate_bound() <= sensor_rate(range, b).0 <= rate_bound(),
        -rate_bound() <= sensor_rate(range, b).1 <= rate_bound(),
        -rate_bound() <= sensor_rate(range, b).2 <= rate_bound(),
{
    let c = axis_counts(b);
    let f = range.micro_dps() * 1_000_000;
    assert(-rate_bound() <= c.0 * f <= rate_bound()) by (nonlinear_arith)
        requires
            -32_768 <= c.0 <= 32_767,
            0 <= f <= 70_000_000_000,
    ;
    assert(-rate_bound() <= c.1 * f <= rate_bound()) by (nonlinear_arith)
        requires
            -32_768 <= c.1 <= 32_767,
            0 <= f <= 70_000_000_000,
    ;
    assert(-rate_bound() <= c.2 * f <= rate_bound()) by (nonlinear_arith)
        requires
            -32_768 <= c.2 <= 32_767,
            0 <= f <= 70_000_000_000,
    ;
}

/// Whether two bytes, low byte first, hold a number in two's complement: it is the
/// one number of sixteen bits, signed, that leaves the same remainder.
pub open spec fn hold(low: u8, high: u8, n: int) -> bool {
    -32_768 <= n < 32_768 && (n - low - 256 * high) % 65_536 == 0
}

/// Each output of the accelerometer is the number in the two bytes of the sensor
/// axis that the output names, times the weight of a count, with the sign of the
/// output. The bytes of x come first, then those of y, then those of z, whatever
/// the range.
pub proof fn law_acceleration_is_its_two_bytes(
    decoder: SampleDecoder,
    b: [u8; 6],
    g: (Fixed, Fixed, Fixed),
    i: int,
    n: int,
)
    requires
        decoder.axis_remap.wf(),
        fixed::values(g) == decoder.acceleration(b@),
        0 <= i < 3,
        hold(
            b[2 * decoder.axis_remap.axes[i]],
            b[2 * decoder.axis_remap.axes[i] + 1],
            n,
        ),
    ensures
        ({
            let weight: int = match decoder.acc_range {
                AccRange::G2 => 61_000_000,
                AccRange::G4 => 122_000_000,
                AccRange::G8 => 244_000_000,
                AccRange::G16 => 488_000_000,
            };
            let out = seq![g.0.pico, g.1.pico, g.2.pico][i];
            match decoder.axis_remap.signs[i] {
                Sign::Positive => out == n * weight,
                Sign::Negative => out == -(n * weight),
            }
        }),
{
    let k = decoder.axis_remap.axes[i] as int;
    assert(i == 0 || i == 1 || i == 2);
    assert(k == 0 || k == 1 || k == 2);
    assert(counts(b[2 * k], b[2 * k + 1]) == n);
}

/// Without a remap the outputs are x, y and z of the sensor, in that order: bytes 0
/// and 1 are x, bytes 2 and 3 are y, bytes 4 and 5 are z.
pub proof fn law_unmapped_acceleration_is_in_order(
    decoder: SampleDecoder,
    b: [u8; 6],
    g: (Fixed, Fixed, Fixed),
    x: int,
    y: int,
    z: int,
)
    requires
        decoder.axis_remap.is_identity(),
        fixed::values(g) == decoder.acceleration(b@),
        hold(b[0], b[1], x),
        hold(b[2], b[3], y),
        hold(b[4], b[5], z),
    ensures
        ({
            let weight: int = match decoder.acc_range {
                AccRange::G2 => 61_000_000,
                AccRange::G4 => 122_000_000,
                AccRange::G8 => 244_000_000,
                AccRange::G16 => 488_000_000,
            };
            &&& g.0.pico == x * weight
            &&& g.1.pico == y * weight
            &&& g.2.pico == z * weight
        }),
{
    law_acceleration_is_its_two_bytes(decoder, b, g, 0, x);
    law_acceleration_is_its_two_bytes(decoder, b, g, 1, y);
    law_acceleration_is_its_two_bytes(decoder, b, g, 2, z);
}

/// Two bytes move no output but those that name their axis.
pub proof fn law_bytes_move_their_axis_alone(
    decoder: SampleDecoder,
    b: Seq<u8>,
    c: Seq<u8>,
    axis: int,
)
    requires
        decoder.axis_remap.wf(),
        b.len() == 6,
        c.len() == 6,
        forall|j: int| 0 <= j < 6 && j / 2 != axis ==> b[j] == c[j],
    ensures
        decoder.axis_remap.axes[0] != axis ==> decoder.acceleration(b).0 == decoder.acceleration(
            c,
        ).0 && decoder.rate_dps(b).0 == decoder.rate_dps(c).0,
        decoder.axis_remap.axes[1] != axis ==> decoder.acceleration(b).1 == decoder.acceleration(
            c,
        ).1 && decoder.rate_dps(b).1 == decoder.rate_dps(c).1,
        decoder.axis_remap.axes[2] != axis ==> decoder.acceleration(b).2 == decoder.acceleration(
            c,
        ).2 && decoder.rate_dps(b).2 == decoder.rate_dps(c).2,
{
    assert(axis != 0 ==> b[0] == c[0] && b[1] == c[1]);
    assert(axis != 1 ==> b[2] == c[2] && b[3] == c[3]);
    assert(axis != 2 ==> b[4] == c[4] && b[5] == c[5]);
}

/// Each output of the gyroscope is the number in the two bytes of the sensor axis
/// that the output names, times the weight of a count, less the bias of that axis,
/// with the sign of the output. A difference beyond the range is held at its end.
pub proof fn law_rate_is_its_two_bytes_less_the_bias(
    decoder: SampleDecoder,
    b: [u8; 6],
    dps: (Fixed, Fixed, Fixed),
    i: int,
    n: int,
)
    requires
        decoder.axis_remap.wf(),
        fixed::values(dps) == decoder.rate_dps(b@),
        0 <= i < 3,
        hold(
            b[2 * decoder.axis_remap.axes[i]],
            b[2 * decoder.axis_remap.axes[i] + 1],
            n,
        ),
    ensures
        ({
            let weight: int = match decoder.gyro_range {
                GyroRange::Dps125 => 4_375_000_000,
                GyroRange::Dps250 => 8_750_000_000,
                GyroRange::Dps500 => 17_500_000_000,
                GyroRange::Dps1000 => 35_000_000_000,
                GyroRange::Dps2000 => 70_000_000_000,
            };
            let bias = decoder.gyro_bias_dps;
            let d = n * weight - seq![bias.0.pico, bias.1.pico, bias.2.pico][
                decoder.axis_remap.axes[i] as int
            ];
            let out = seq![dps.0.pico, dps.1.pico, dps.2.pico][i];
            match decoder.axis_remap.signs[i] {
                Sign::Positive => {
                    &&& i128::MIN <= d <= i128::MAX ==> out == d
                    &&& d > i128::MAX ==> out == i128::MAX
                    &&& d < i128::MIN ==> out == i128::MIN
                },
                Sign::Negative => {
                    &&& i128::MIN < d <= i128::MAX ==> out == -d
                    &&& d > i128::MAX ==> out == -i128::MAX
                    &&& d <= i128::MIN ==> out == i128::MAX
                },
            }
        }),
{
    let k = decoder.axis_remap.axes[i] as int;
    assert(i == 0 || i == 1 || i == 2);
    assert(k == 0 || k == 1 || k == 2);
    assert(counts(b[2 * k], b[2 * k + 1]) == n);
}

/// A rate in rad/s is, output by output, the trillionth that is nearest to the rate
/// in degrees per second times 0.017453292519943296.
pub proof fn law_rate_in_radians_is_that_in_degrees(
    decoder: SampleDecoder,
    b: [u8; 6],
    dps: (Fixed, Fixed, Fixed),
    rads: (Fixed, Fixed, Fixed),
    i: int,
)
    requires
        fixed::values(dps) == decoder.rate_dps(b@),
        fixed::values(rads) == decoder.rate_rads(b@),
        0 <= i < 3,
    ensures
        ({
            let degrees = seq![dps.0.pico, dps.1.pico, dps.2.pico][i];
            let radians = seq![rads.0.pico, rads.1.pico, rads.2.pico][i];
            let off = radians * 1_000_000_000_000_000_000 - degrees * 17_453_292_519_943_296;
            -1_000_000_000_000_000_000 < 2 * off <= 1_000_000_000_000_000_000
        }),
{
    assert(i == 0 || i == 1 || i == 2);
    let degrees = seq![dps.0.pico, dps.1.pico, dps.2.pico][i];
    fixed::law_nearest_is_within_half(degrees * RADIANS_PER_DEGREE, RADIANS_SCALE as int);
}

/// A block of twelve bytes is six of the gyroscope and then six of the
/// accelerometer: its sample is what the two decode to on their own.
pub proof fn law_block_is_gyroscope_then_accelerometer(
    decoder: SampleDecoder,
    b: [u8; 12],
    sample: ImuSample,
    first: [u8; 6],
    second: [u8; 6],
    rads: (Fixed, Fixed, Fixed),
    g: (Fixed, Fixed, Fixed),
)
    requires
        decoder.is_sample_of(b@, sample),
        forall|j: int| 0 <= j < 6 ==> #[trigger] first[j] == b[j],
        forall|j: int| 0 <= j < 6 ==> #[trigger] second[j] == b[j + 6],
        fixed::values(rads) == decoder.rate_rads(first@),
        fixed::values(g) == decoder.acceleration(second@),
    ensures
        sample.gyro_rads[0] == rads.0,
        sample.gyro_rads[1] == rads.1,
        sample.gyro_rads[2] == rads.2,
        sample.accel_g[0] == g.0,
        sample.accel_g[1] == g.1,
        sample.accel_g[2] == g.2,
{
    assert(first@ =~= b@.subrange(0, 6));
    assert(second@ =~= b@.subrange(6, 12));
}

} // verus!
