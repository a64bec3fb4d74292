//! Measuring the zero-rate bias of the gyroscope.
use vstd::prelude::*;

use crate::config::GyroRange;
use crate::decoder;
use crate::decoder::SampleDecoder;
use crate::driver::{ImuState, Lsm6ds3tr};
use crate::error::Error;
use crate::fixed;
use crate::fixed::Fixed;

verus! {

/// A calibration under way: so many measurements taken, so many to take.
pub struct Calibration {
    /// Decodes into °/s without bias and without remap.
    decoder: SampleDecoder,
    samples: u32,
    taken: u32,
    sum: (i128, i128, i128),
}

/// What a calibration under way holds.
pub struct CalibrationState {
    pub gyro_range: GyroRange,
    /// How many measurements make the average.
    pub samples: int,
    /// How many measurements have been taken.
    pub taken: int,
    /// The sum of the rates measured, in °/s, in the frame of the sensor.
    pub sum: (int, int, int),
}

impl CalibrationState {
    /// The sum with one more measurement.
    pub open spec fn sum_with(self, b: Seq<u8>) -> (int, int, int) {
        total(self.sum, decoder::sensor_rate(self.gyro_range, b))
    }

    /// The state after one more measurement.
    pub open spec fn with(self, b: Seq<u8>) -> CalibrationState {
        CalibrationState { taken: self.taken + 1, sum: self.sum_with(b), ..self }
    }
}

/// The sum of two vectors.
pub open spec fn total(v: (int, int, int), w: (int, int, int)) -> (int, int, int) {
    (v.0 + w.0, v.1 + w.1, v.2 + w.2)
}

/// The sum of the rates of several measurements.
pub open spec fn rate_sum(range: GyroRange, blocks: Seq<Seq<u8>>) -> (int, int, int)
    decreases blocks.len(),
{
    if blocks.len() == 0 {
        (0, 0, 0)
    } else {
        total(rate_sum(range, blocks.drop_last()), decoder::sensor_rate(range, blocks.last()))
    }
}

/// The average of so many measurements with that sum, to the nearest trillionth.
pub open spec fn average(sum: (int, int, int), samples: int) -> (int, int, int) {
    (
        fixed::nearest(sum.0, samples),
        fixed::nearest(sum.1, samples),
        fixed::nearest(sum.2, samples),
    )
}

/// A driver whose calibration has begun: it has no bias.
pub open spec fn unbiased<I2C>(imu: ImuState<I2C>) -> ImuState<I2C> {
    ImuState { gyro_bias_dps: fixed::reading((0, 0, 0)), ..imu }
}

/// A driver once its calibration is done: the average is the bias.
pub open spec fn calibrated<I2C>(
    imu: ImuState<I2C>,
    sum: (int, int, int),
    samples: int,
) -> ImuState<I2C> {
    ImuState { gyro_bias_dps: fixed::reading(average(sum, samples)), ..imu }
}

/// A calibration that has begun on a driver.
pub open spec fn begun<I2C>(imu: ImuState<I2C>, samples: int) -> CalibrationState {
    CalibrationState { gyro_range: imu.gyro_range, samples, taken: 0, sum: (0, 0, 0) }
}

/// What the reply to a measurement leads to: the driver afterwards, and the
/// calibration while measurements are left to take.
pub open spec fn after_measurement<I2C, E>(
    imu: ImuState<I2C>,
    under_way: CalibrationState,
    reply: Result<[u8; 6], E>,
) -> Result<(ImuState<I2C>, Option<CalibrationState>), Error<E>> {
    match reply {
        Ok(b) => if under_way.taken + 1 < under_way.samples {
            Ok((imu, Some(under_way.with(b@))))
        } else {
            Ok((calibrated(imu, under_way.sum_with(b@), under_way.samples), None))
        },
        Err(e) => Err(Error::I2c(e)),
    }
}

impl View for Calibration {
    type V = CalibrationState;

    closed spec fn view(&self) -> CalibrationState {
        CalibrationState {
            gyro_range: self.decoder.gyro_range,
            samples: self.samples as int,
            taken: self.taken as int,
            sum: (self.sum.0 as int, self.sum.1 as int, self.sum.2 as int),
        }
    }
}

impl Calibration {
    /// There is a measurement left to take, the decoder does not correct, and the
    /// sum is one of so many measurements.
    #[verifier::type_invariant]
    spec fn wf(self) -> bool {
        let bound = self.taken * decoder::rate_bound();
        &&& self.taken < self.samples
        &&& self.decoder.axis_remap.is_identity()
        &&& fixed::values(self.decoder.gyro_bias_dps) == (0int, 0int, 0int)
        &&& -bound <= self.sum.0 <= bound
        &&& -bound <= self.sum.1 <= bound
        &&& -bound <= self.sum.2 <= bound
    }
}

impl<I2C> Lsm6ds3tr<I2C> {
    /// Begin to measure the gyroscope zero-rate bias.
    ///
    /// **The device must be held completely still until the end.** So many
    /// gyroscope measurements are averaged, and the result becomes the bias that is
    /// subtracted from all subsequent gyroscope readings. This is the main remedy
    /// for yaw drift on a 6-axis IMU, where the gyro Z bias has no gravity or
    /// magnetometer reference to correct it.
    ///
    /// The bias is captured in the raw sensor frame, so it is correct regardless of
    /// any [`AxisRemap`](crate::AxisRemap) configured before or after calibration, and
    /// no calibration changes the remap. Until the end, and for good when the bus fails
    /// meanwhile, the driver has no bias.
    ///
    /// With no measurement to take there is nothing to do.
    pub fn calibrate_gyro(&mut self, samples: u32) -> (calibration: Option<Calibration>)
        ensures
            samples == 0 ==> calibration is None && final(self)@ == old(self)@,
            samples > 0 ==> {
                &&& calibration matches Some(c)
                &&& c@ == begun(old(self)@, samples as int)
                &&& final(self)@ == unbiased(old(self)@)
            },
    {
        if samples == 0 {
            return None;
        }
        self.set_bias((Fixed::zero(), Fixed::zero(), Fixed::zero()));
        let ranges = self.decoder();
        Some(Calibration {
            decoder: SampleDecoder::new(ranges.acc_range, ranges.gyro_range),
            samples,
            taken: 0,
            sum: (0, 0, 0),
        })
    }

    /// Take one measurement of a calibration, from the reply to the gyroscope
    /// transfer. Gives the calibration back while measurements are left to take.
    pub fn calibration_sample<E>(
        &mut self,
        calibration: Calibration,
        reply: Result<[u8; 6], E>,
    ) -> (r: Result<Option<Calibration>, Error<E>>)
        ensures
            match reply {
                Ok(b) => if calibration@.taken + 1 < calibration@.samples {
                    &&& r matches Ok(Some(next))
                    &&& next@ == calibration@.with(b@)
                    &&& final(self)@ == old(self)@
                } else {
                    &&& r == Ok::<Option<Calibration>, Error<E>>(None)
                    &&& fixed::values(final(self)@.gyro_bias_dps) == average(
                        calibration@.sum_with(b@),
                        calibration@.samples,
                    )
                    &&& final(self)@ == calibrated(
                        old(self)@,
                        calibration@.sum_with(b@),
                        calibration@.samples,
                    )
                },
                Err(e) => {
                    &&& r == Err::<Option<Calibration>, Error<E>>(Error::I2c(e))
                    &&& final(self)@ == old(self)@
                },
            },
            match after_measurement(old(self)@, calibration@, reply) {
                Ok((imu, Some(next))) => {
                    &&& r matches Ok(Some(c))
                    &&& c@ == next
                    &&& final(self)@ == imu
                },
                Ok((imu, None)) => {
                    &&& r == Ok::<Option<Calibration>, Error<E>>(None)
                    &&& final(self)@ == imu
                },
                Err(e) => {
                    &&& r == Err::<Option<Calibration>, Error<E>>(e)
                    &&& final(self)@ == old(self)@
                },
            },
    {
        let b: [u8; 6] = match reply {
            Ok(b) => b,
            Err(e) => {
                return Err(Error::from(e));
            },
        };
        proof {
            use_type_invariant(&calibration);
            decoder::lemma_sensor_rate_is_bounded(calibration.decoder.gyro_range, b@);
            decoder::law_rate_is_exact(calibration.decoder, b@);
            assert((calibration.taken + 1) * decoder::rate_bound() == calibration.taken
                * decoder::rate_bound() + decoder::rate_bound()) by (nonlinear_arith);
            assert(calibration.taken * decoder::rate_bound() <= u32::MAX * decoder::rate_bound())
                by (nonlinear_arith)
                requires
                    calibration.taken <= u32::MAX,
                    decoder::rate_bound() >= 0,
            ;
        }
        let (x, y, z) = calibration.decoder.decode_gyroscope_dps(&b);
        let sum: (i128, i128, i128) = (
            calibration.sum.0 + x.pico,
            calibration.sum.1 + y.pico,
            calibration.sum.2 + z.pico,
        );
        let taken: u32 = calibration.taken + 1;
        if taken < calibration.samples {
            Ok(Some(Calibration { taken, sum, ..calibration }))
        } else {
            let bias = (mean(sum.0, taken), mean(sum.1, taken), mean(sum.2, taken));
            self.set_bias(bias);
            Ok(None)
        }
    }
}

/// The average of so many measurements with that sum.
fn mean(sum: i128, samples: u32) -> (r: Fixed)
    requires
        samples > 0,
        -samples * decoder::rate_bound() <= sum <= samples * decoder::rate_bound(),
    ensures
        r.pico == fixed::nearest(sum as int, samples as int),
{
    let n: i128 = samples as i128;
    proof {
        assert(samples * decoder::rate_bound() <= u32::MAX * decoder::rate_bound())
            by (nonlinear_arith)
            requires
                samples <= u32::MAX,
                decoder::rate_bound() >= 0,
        ;
        lemma_average_is_bounded(sum as int, samples as int);
    }
    Fixed { pico: fixed::divide_to_nearest(sum, n) }
}

/// An average lies within the bounds of what is averaged.
proof fn lemma_average_is_bounded(sum: int, samples: int)
    requires
        samples > 0,
        -samples * decoder::rate_bound() <= sum <= samples * decoder::rate_bound(),
    ensures
        -decoder::rate_bound() <= fixed::nearest(sum, samples) <= decoder::rate_bound(),
{
    fixed::law_nearest_is_within_half(sum, samples);
    let q = fixed::nearest(sum, samples);
    let bound = decoder::rate_bound();
    assert(q <= bound) by (nonlinear_arith)
        requires
            2 * (q * samples - sum) <= samples,
            sum <= samples * bound,
            samples > 0,
    ;
    assert(q >= -bound) by (nonlinear_arith)
        requires
            2 * (q * samples - sum) >= -samples,
            sum >= -samples * bound,
            samples > 0,
    ;
}

/// A calibration from some point to its end: the driver afterwards, how many
/// measurements were asked for, and what came of it.
pub struct CalibrationRun<I2C, E> {
    pub imu: ImuState<I2C>,
    pub transfers: int,
    pub outcome: Result<(), Error<E>>,
}

/// The rest of a calibration, when the bus answers with `replies`.
pub open spec fn run_calibration<I2C, E>(
    imu: ImuState<I2C>,
    under_way: CalibrationState,
    replies: Seq<Result<[u8; 6], E>>,
) -> CalibrationRun<I2C, E>
    decreases under_way.samples - under_way.taken,
{
    match after_measurement(imu, under_way, replies[0]) {
        Ok((after, Some(next))) => {
            let rest = run_calibration(after, next, replies.drop_first());
            CalibrationRun { transfers: rest.transfers + 1, ..rest }
        },
        Ok((after, None)) => CalibrationRun { imu: after, transfers: 1, outcome: Ok(()) },
        Err(e) => CalibrationRun { imu, transfers: 1, outcome: Err(e) },
    }
}

/// The bytes of replies that are not errors.
pub open spec fn blocks_of<E>(replies: Seq<Result<[u8; 6], E>>) -> Seq<Seq<u8>> {
    replies.map_values(|reply: Result<[u8; 6], E>| reply->Ok_0@)
}

/// The first measurement can be split off a sum as well as the last.
proof fn lemma_sum_from_the_front(range: GyroRange, blocks: Seq<Seq<u8>>)
    requires
        blocks.len() > 0,
    ensures
        rate_sum(range, blocks) == total(
            decoder::sensor_rate(range, blocks[0]),
            rate_sum(range, blocks.drop_first()),
        ),
    decreases blocks.len(),
{
    if blocks.len() == 1 {
        assert(rate_sum(range, blocks.drop_last()) == (0int, 0int, 0int));
        assert(rate_sum(range, blocks.drop_first()) == (0int, 0int, 0int));
        assert(blocks.last() == blocks[0]);
    } else {
        lemma_sum_from_the_front(range, blocks.drop_last());
        assert(blocks.drop_last().drop_first() =~= blocks.drop_first().drop_last());
        assert(blocks.drop_first().last() == blocks.last());
        assert(blocks.drop_last()[0] == blocks[0]);
    }
}

/// The rest of a calibration on a working bus takes all measurements that are left.
proof fn lemma_calibration_takes_all_measurements<I2C, E>(
    imu: ImuState<I2C>,
    under_way: CalibrationState,
    replies: Seq<Result<[u8; 6], E>>,
)
    requires
        under_way.taken < under_way.samples,
        replies.len() == under_way.samples - under_way.taken,
        forall|i: int| 0 <= i < replies.len() ==> (#[trigger] replies[i]) is Ok,
    ensures
        run_calibration(imu, under_way, replies) == (CalibrationRun::<I2C, E> {
            imu: calibrated(
                imu,
                total(under_way.sum, rate_sum(under_way.gyro_range, blocks_of(replies))),
                under_way.samples,
            ),
            transfers: replies.len() as int,
            outcome: Ok(()),
        }),
    decreases replies.len(),
{
    let blocks = blocks_of(replies);
    let b = replies[0]->Ok_0;
    assert(replies[0] is Ok);
    assert(blocks[0] == b@);
    lemma_sum_from_the_front(under_way.gyro_range, blocks);
    let rest = replies.drop_first();
    assert(blocks_of(rest) =~= blocks.drop_first());
    if rest.len() > 0 {
        assert forall|i: int| 0 <= i < rest.len() implies (#[trigger] rest[i]) is Ok by {
            assert(rest[i] == replies[i + 1]);
        }
        lemma_calibration_takes_all_measurements(imu, under_way.with(b@), rest);
    } else {
        assert(blocks.drop_first().len() == 0);
    }
}

/// The rest of a calibration ends with the first measurement that fails.
proof fn lemma_failed_measurement_ends_calibration<I2C, E>(
    imu: ImuState<I2C>,
    under_way: CalibrationState,
    replies: Seq<Result<[u8; 6], E>>,
    failed: int,
)
    requires
        0 <= failed < replies.len(),
        failed < under_way.samples - under_way.taken,
        forall|i: int| 0 <= i < failed ==> (#[trigger] replies[i]) is Ok,
        replies[failed] is Err,
    ensures
        run_calibration(imu, under_way, replies) == (CalibrationRun::<I2C, E> {
            imu,
            transfers: failed + 1,
            outcome: Err(Error::I2c(replies[failed]->Err_0)),
        }),
    decreases failed,
{
    if failed > 0 {
        assert(replies[0] is Ok);
        let b = replies[0]->Ok_0;
        let rest = replies.drop_first();
        assert forall|i: int| 0 <= i < failed - 1 implies (#[trigger] rest[i]) is Ok by {
            assert(rest[i] == replies[i + 1]);
        }
        assert(rest[failed - 1] == replies[failed]);
        lemma_failed_measurement_ends_calibration(imu, under_way.with(b@), rest, failed - 1);
    }
}

/// A calibration on a working bus asks for just as many measurements as it was told
/// to, averages all of them into the bias and changes nothing else. No remap has a
/// part in the bias.
pub proof fn law_calibration_averages_all_measurements<I2C, E>(
    imu: ImuState<I2C>,
    replies: Seq<Result<[u8; 6], E>>,
)
    requires
        replies.len() > 0,
        forall|i: int| 0 <= i < replies.len() ==> (#[trigger] replies[i]) is Ok,
    ensures
        ({
            let samples = replies.len() as int;
            run_calibration(unbiased(imu), begun(imu, samples), replies) == (CalibrationRun::<
                I2C,
                E,
            > {
                imu: calibrated(imu, rate_sum(imu.gyro_range, blocks_of(replies)), samples),
                transfers: samples,
                outcome: Ok(()),
            })
        }),
{
    let under_way = begun(imu, replies.len() as int);
    lemma_calibration_takes_all_measurements(unbiased(imu), under_way, replies);
}

/// The first measurement that fails ends a calibration: none is asked for after it,
/// and its error is the outcome. The bias is gone, and nothing else has changed: the
/// remap that was set goes on being applied.
pub proof fn law_failed_measurement_ends_calibration<I2C, E>(
    imu: ImuState<I2C>,
    samples: int,
    replies: Seq<Result<[u8; 6], E>>,
    failed: int,
)
    requires
        0 <= failed < replies.len(),
        failed < samples,
        forall|i: int| 0 <= i < failed ==> (#[trigger] replies[i]) is Ok,
        replies[failed] is Err,
    ensures
        ({
            let run = run_calibration(unbiased(imu), begun(imu, samples), replies);
            &&& run.imu == unbiased(imu)
            &&& run.imu.axis_remap == imu.axis_remap
            &&& fixed::values(run.imu.gyro_bias_dps) == (0int, 0int, 0int)
            &&& run.transfers == failed + 1
            &&& run.outcome == Err::<(), Error<E>>(Error::I2c(replies[failed]->Err_0))
        }),
{
    lemma_failed_measurement_ends_calibration(
        unbiased(imu),
        begun(imu, samples),
        replies,
        failed,
    );
}

/// Subtracting the bias leaves nothing on average: over the measurements of the
/// calibration the corrected rates add up to no more than half a trillionth of a
/// degree per second for each measurement.
pub proof fn law_bias_centres_the_measurements(range: GyroRange, blocks: Seq<Seq<u8>>)
    requires
        blocks.len() > 0,
    ensures
        ({
            let n = blocks.len() as int;
            let sum = rate_sum(range, blocks);
            let bias = average(sum, n);
            &&& -n <= 2 * (sum.0 - n * bias.0) <= n
            &&& -n <= 2 * (sum.1 - n * bias.1) <= n
            &&& -n <= 2 * (sum.2 - n * bias.2) <= n
        }),
{
    let n = blocks.len() as int;
    let sum = rate_sum(range, blocks);
    let bias = average(sum, n);
    fixed::law_nearest_is_within_half(sum.0, n);
    fixed::law_nearest_is_within_half(sum.1, n);
    fixed::law_nearest_is_within_half(sum.2, n);
    vstd::arithmetic::mul::lemma_mul_is_commutative(n, bias.0);
    vstd::arithmetic::mul::lemma_mul_is_commutative(n, bias.1);
    vstd::arithmetic::mul::lemma_mul_is_commutative(n, bias.2);
}

/// Equal measurements add up to a multiple of one.
proof fn lemma_sum_of_equal_measurements(range: GyroRange, blocks: Seq<Seq<u8>>, b: Seq<u8>)
    requires
        forall|i: int| 0 <= i < blocks.len() ==> #[trigger] blocks[i] == b,
    ensures
        rate_sum(range, blocks) == decoder::scaled(
            decoder::sensor_rate(range, b),
            blocks.len() as int,
        ),
    decreases blocks.len(),
{
    let r = decoder::sensor_rate(range, b);
    let n = blocks.len() as int;
    if n > 0 {
        lemma_sum_of_equal_measurements(range, blocks.drop_last(), b);
        assert(blocks.last() == b);
        assert(r.0 * n == r.0 * (n - 1) + r.0) by (nonlinear_arith);
        assert(r.1 * n == r.1 * (n - 1) + r.1) by (nonlinear_arith);
        assert(r.2 * n == r.2 * (n - 1) + r.2) by (nonlinear_arith);
    } else {
        assert(r.0 * 0 == 0 && r.1 * 0 == 0 && r.2 * 0 == 0);
    }
}

/// A device held still, whose registers give the same bytes throughout, reads
/// exactly zero after calibration, under every remap.
pub proof fn law_still_device_reads_zero(
    calibrated: SampleDecoder,
    blocks: Seq<Seq<u8>>,
    b: Seq<u8>,
)
    requires
        blocks.len() > 0,
        forall|i: int| 0 <= i < blocks.len() ==> #[trigger] blocks[i] == b,
        calibrated.axis_remap.wf(),
        fixed::values(calibrated.gyro_bias_dps) == average(
            rate_sum(calibrated.gyro_range, blocks),
            blocks.len() as int,
        ),
    ensures
        calibrated.rate_dps(b) == (0int, 0int, 0int),
        calibrated.rate_rads(b) == (0int, 0int, 0int),
{
    let r = decoder::sensor_rate(calibrated.gyro_range, b);
    let n = blocks.len() as int;
    lemma_sum_of_equal_measurements(calibrated.gyro_range, blocks, b);
    fixed::law_nearest_keeps_exact_quotients(r.0, n);
    fixed::law_nearest_keeps_exact_quotients(r.1, n);
    fixed::law_nearest_keeps_exact_quotients(r.2, n);
    assert(calibrated.rate_dps(b) == (0int, 0int, 0int));
    decoder::lemma_no_rotation_is_zero_radians();
}

/// The sum of some numbers.
pub open spec fn sum(numbers: Seq<int>) -> int
    decreases numbers.len(),
{
    if numbers.len() == 0 {
        0
    } else {
        numbers[0] + sum(numbers.drop_first())
    }
}

/// The measurements add up along each axis of the sensor.
proof fn lemma_rates_add_up(
    range: GyroRange,
    blocks: Seq<Seq<u8>>,
    xs: Seq<int>,
    ys: Seq<int>,
    zs: Seq<int>,
)
    requires
        xs.len() == blocks.len(),
        ys.len() == blocks.len(),
        zs.len() == blocks.len(),
        forall|k: int| 0 <= k < blocks.len() ==> {
            let b = #[trigger] blocks[k];
            &&& decoder::hold(b[0], b[1], xs[k])
            &&& decoder::hold(b[2], b[3], ys[k])
            &&& decoder::hold(b[4], b[5], zs[k])
        },
    ensures
        rate_sum(range, blocks) == decoder::scaled(
            (sum(xs), sum(ys), sum(zs)),
            range.micro_dps() * 1_000_000,
        ),
    decreases blocks.len(),
{
    let w: int = range.micro_dps() * 1_000_000;
    if blocks.len() == 0 {
        assert(0 * w == 0);
    } else {
        lemma_sum_from_the_front(range, blocks);
        let rest = blocks.drop_first();
        let (x, y, z) = (xs.drop_first(), ys.drop_first(), zs.drop_first());
        assert forall|k: int| 0 <= k < rest.len() implies {
            let b = #[trigger] rest[k];
            &&& decoder::hold(b[0], b[1], x[k])
            &&& decoder::hold(b[2], b[3], y[k])
            &&& decoder::hold(b[4], b[5], z[k])
        } by {
            assert(rest[k] == blocks[k + 1]);
        }
        lemma_rates_add_up(range, rest, x, y, z);
        let b = blocks[0];
        assert(decoder::axis_counts(b) == (xs[0], ys[0], zs[0]));
        assert((xs[0] + sum(x)) * w == xs[0] * w + sum(x) * w) by (nonlinear_arith);
        assert((ys[0] + sum(y)) * w == ys[0] * w + sum(y) * w) by (nonlinear_arith);
        assert((zs[0] + sum(z)) * w == zs[0] * w + sum(z) * w) by (nonlinear_arith);
    }
}

/// The bias after a calibration on a working bus is, axis by axis of the sensor, the
/// trillionth nearest to the mean of the numbers in the bytes of that axis, times
/// the weight of a count. Each of the bytes pairs x, y and z has its own component
/// of the bias, the remap has no part in it, and all else of the driver is kept.
pub proof fn law_bias_is_the_mean_of_the_bytes<I2C, E>(
    imu: ImuState<I2C>,
    replies: Seq<Result<[u8; 6], E>>,
    xs: Seq<int>,
    ys: Seq<int>,
    zs: Seq<int>,
)
    requires
        0 < replies.len() <= u32::MAX,
        xs.len() == replies.len(),
        ys.len() == replies.len(),
        zs.len() == replies.len(),
        forall|k: int| 0 <= k < replies.len() ==> {
            &&& (#[trigger] replies[k]) matches Ok(b)
            &&& decoder::hold(b[0], b[1], xs[k])
            &&& decoder::hold(b[2], b[3], ys[k])
            &&& decoder::hold(b[4], b[5], zs[k])
        },
    ensures
        ({
            let n = replies.len() as int;
            let run = run_calibration(unbiased(imu), begun(imu, n), replies);
            let bias = run.imu.gyro_bias_dps;
            let weight: int = match imu.gyro_range {
                GyroRange::Dps125 => 4_375_000_000,
                GyroRange::Dps250 => 8_750_000_000,
                GyroRange::Dps500 => 17_500_000_000,
                GyroRange::Dps1000 => 35_000_000_000,
                GyroRange::Dps2000 => 70_000_000_000,
            };
            &&& run.outcome == Ok::<(), Error<E>>(())
            &&& run.transfers == n
            &&& -n < 2 * (bias.0.pico * n - sum(xs) * weight) <= n
            &&& -n < 2 * (bias.1.pico * n - sum(ys) * weight) <= n
            &&& -n < 2 * (bias.2.pico * n - sum(zs) * weight) <= n
            &&& run.imu.i2c == imu.i2c
            &&& run.imu.address == imu.address
            &&& run.imu.acc_range == imu.acc_range
            &&& run.imu.gyro_range == imu.gyro_range
            &&& run.imu.axis_remap == imu.axis_remap
        }),
{
    let n = replies.len() as int;
    let blocks = blocks_of(replies);
    assert forall|k: int| 0 <= k < replies.len() implies (#[trigger] replies[k]) is Ok by {}
    law_calibration_averages_all_measurements(imu, replies);
    assert forall|k: int| 0 <= k < blocks.len() implies {
        let b = #[trigger] blocks[k];
        &&& decoder::hold(b[0], b[1], xs[k])
        &&& decoder::hold(b[2], b[3], ys[k])
        &&& decoder::hold(b[4], b[5], zs[k])
    } by {
        assert(replies[k] is Ok);
        assert(blocks[k] == replies[k]->Ok_0@);
    }
    lemma_rates_add_up(imu.gyro_range, blocks, xs, ys, zs);
    let total = rate_sum(imu.gyro_range, blocks);
    lemma_sum_is_bounded(imu.gyro_range, blocks);
    lemma_average_is_bounded(total.0, n);
    lemma_average_is_bounded(total.1, n);
    lemma_average_is_bounded(total.2, n);
    fixed::law_nearest_is_within_half(total.0, n);
    fixed::law_nearest_is_within_half(total.1, n);
    fixed::law_nearest_is_within_half(total.2, n);
}

/// A sum of measurements is no larger than so many of the largest.
proof fn lemma_sum_is_bounded(range: GyroRange, blocks: Seq<Seq<u8>>)
    ensures
        ({
            let total = rate_sum(range, blocks);
            let bound = blocks.len() * decoder::rate_bound();
            &&& -bound <= total.0 <= bound
            &&& -bound <= total.1 <= bound
            &&& -bound <= total.2 <= bound
        }),
    decreases blocks.len(),
{
    if blocks.len() > 0 {
        lemma_sum_is_bounded(range, blocks.drop_last());
        decoder::lemma_sensor_rate_is_bounded(range, blocks.last());
    }
}

} // verus!
