//! Orientation from accelerometer and gyroscope.
//!
//! The arithmetic of the Madgwick filter is done elsewhere. Here stands the state
//! around it: which gain it runs with, which orientation it starts from and what
//! becomes of its result.
use vstd::prelude::*;

use crate::decoder::ImuSample;
use crate::driver::{ImuState, Lsm6ds3tr};
use crate::error::Error;
use crate::fixed;
use crate::fixed::Fixed;
use crate::motion;
use crate::motion::{AdaptiveBeta, Gain};
use crate::transfer::Transfer;
use crate::wide;
use crate::wide::Long;

verus! {

/// Accelerations shorter than this, in g, have no direction: `1e-6`.
pub const SHORTEST_GRAVITY: i128 = 1_000_000;

/// Transport-agnostic Madgwick AHRS.
///
/// Holds only the filter state: it does not own a sensor or a bus. Feed it samples
/// from any source. `Q` is the type of an orientation, which is carried and not read.
pub struct MadgwickAhrs<Q> {
    /// The orientation, body to world.
    quat: Q,
    /// Base gain, used while moving (or always, if adaptive is disabled).
    beta: Fixed,
    adaptive: Option<AdaptiveBeta>,
    /// Seconds the device has been continuously still (drives the gain decay).
    time_still: Long,
}

/// What a filter holds.
pub struct FilterState<Q> {
    pub quat: Q,
    pub beta: Fixed,
    pub adaptive: Option<AdaptiveBeta>,
    /// The still time, in trillionths of a second.
    pub time_still: int,
}

/// One run of the filter: from orientation `quat`, over `dt` seconds, with a gain,
/// on a sample.
#[derive(Debug)]
pub struct FilterStep<Q> {
    pub quat: Q,
    pub dt: Fixed,
    pub gain: Gain,
    /// Gyroscope `[x, y, z]` in rad/s.
    pub gyro: [Fixed; 3],
    /// Accelerometer `[x, y, z]` in g.
    pub accel: [Fixed; 3],
}

/// The acceleration to turn onto world up, if it is long enough to have a
/// direction.
pub open spec fn direction(accel: [Fixed; 3]) -> Option<[Fixed; 3]> {
    if motion::is_shorter(
        motion::length_squared(motion::vector(accel)),
        SHORTEST_GRAVITY as int,
    ) {
        None
    } else {
        Some(accel)
    }
}

impl<Q> FilterState<Q> {
    /// The still time after a sample. Without an adaptive gain no sample counts as a
    /// still one.
    pub open spec fn time_after(
        self,
        gyro: (int, int, int),
        accel: (int, int, int),
        dt: int,
    ) -> int {
        match self.adaptive {
            Some(a) => motion::still_time(self.time_still, a.still(gyro, accel), dt),
            None => 0,
        }
    }

    /// The gain for a sample.
    pub open spec fn gain_for(
        self,
        gyro: (int, int, int),
        accel: (int, int, int),
        dt: int,
    ) -> Gain {
        match self.adaptive {
            Some(a) => a.gain(
                self.beta,
                a.still(gyro, accel),
                self.time_after(gyro, accel, dt),
            ),
            None => Gain::Base(self.beta),
        }
    }

    /// The run of the filter that a sample asks for.
    pub open spec fn step_for(
        self,
        gyro: [Fixed; 3],
        accel: [Fixed; 3],
        dt: Fixed,
    ) -> FilterStep<Q> {
        FilterStep {
            quat: self.quat,
            dt,
            gain: self.gain_for(motion::vector(gyro), motion::vector(accel), dt.pico as int),
            gyro,
            accel,
        }
    }

    /// The state once the filter has been asked to take a sample in.
    pub open spec fn after_sample(
        self,
        gyro: (int, int, int),
        accel: (int, int, int),
        dt: int,
    ) -> FilterState<Q> {
        FilterState { time_still: self.time_after(gyro, accel, dt), ..self }
    }

    /// The state once the filter has given its result: a new orientation, or none
    /// if it failed.
    pub open spec fn after_filter<E>(self, result: Result<Q, E>) -> FilterState<Q> {
        match result {
            Ok(q) => FilterState { quat: q, ..self },
            Err(_) => self,
        }
    }
}

impl<Q> View for MadgwickAhrs<Q> {
    type V = FilterState<Q>;

    closed spec fn view(&self) -> FilterState<Q> {
        FilterState {
            quat: self.quat,
            beta: self.beta,
            adaptive: self.adaptive,
            time_still: self.time_still.value(),
        }
    }
}

impl<Q: Copy> MadgwickAhrs<Q> {
    /// Create a new filter, with the orientation to start from.
    ///
    /// * `beta`: filter gain; higher values converge faster but are noisier.
    ///   `0.1` is a reasonable starting point.
    pub fn new(beta: Fixed, identity: Q) -> (ahrs: Self)
        ensures
            ahrs@ == FilterState::created(beta, identity),
    {
        Self { quat: identity, beta, adaptive: None, time_still: Long::zero() }
    }

    /// Enable motion-adaptive gain.
    ///
    /// While moving, the base gain (from [`new`](Self::new)) is used. Once the
    /// device has been continuously still (accelerometer magnitude within
    /// `accel_tol_g` of 1 g **and** gyroscope magnitude below `gyro_tol_rad_s`) for
    /// `still_min_s` seconds, the gain jumps to `beta_peak` to snap the estimate
    /// back to gravity, then decays exponentially back to the base gain over
    /// `decay_tau` seconds.
    ///
    /// `still_min_s` guards against rhythmic motion (walking gait) whose brief quiet
    /// instants would otherwise fire spurious bursts; use 0.3–0.5 s for a walking
    /// robot, or 0 for an instant boost.
    ///
    /// Reasonable starting values: `beta_peak = 0.6`, `decay_tau = 0.4`,
    /// `accel_tol_g = 0.15`, `gyro_tol_rad_s = 0.15`, `still_min_s = 0.4`, base gain
    /// around `0.1` (or lower for gyro-dominant tracking).
    pub fn set_motion_adaptive(
        &mut self,
        beta_peak: Fixed,
        decay_tau: Fixed,
        accel_tol_g: Fixed,
        gyro_tol_rad_s: Fixed,
        still_min_s: Fixed,
    )
        ensures
            final(self)@ == (FilterState {
                adaptive: Some(
                    AdaptiveBeta {
                        beta_peak,
                        decay_tau,
                        accel_tol_g,
                        gyro_tol_rad_s,
                        still_min_s,
                    },
                ),
                ..old(self)@
            }),
            final(self)@ == old(self)@.after_event(
                Event::Enabled(
                    AdaptiveBeta::of(
                        beta_peak,
                        decay_tau,
                        accel_tol_g,
                        gyro_tol_rad_s,
                        still_min_s,
                    ),
                ),
            ),
    {
        self.adaptive = Some(
            AdaptiveBeta { beta_peak, decay_tau, accel_tol_g, gyro_tol_rad_s, still_min_s },
        );
    }

    /// Disable motion-adaptive gain; the filter reverts to a constant gain. No sample
    /// is held against its stillness gate from here on, so that the next one ends the
    /// time for which the device is known to have been still.
    pub fn clear_motion_adaptive(&mut self)
        ensures
            final(self)@ == (FilterState { adaptive: None, ..old(self)@ }),
            final(self)@ == old(self)@.after_event(Event::Disabled),
    {
        self.adaptive = None;
    }

    /// Begin to reset the orientation from one accelerometer sample (in g), assumed
    /// to be pure gravity, i.e. the device is still. Gives the acceleration whose
    /// rotation onto world up sets the tilt exactly (yaw = 0), so that the filter
    /// starts converged instead of slewing from identity. Call once at startup with
    /// the first clean sample (about 1 g).
    ///
    /// An acceleration shorter than a millionth of a g gives nothing: the
    /// orientation stays.
    pub fn reset_orientation_from_accel(&self, accel: [Fixed; 3]) -> (up: Option<[Fixed; 3]>)
        ensures
            up == if motion::is_shorter(
                motion::length_squared(motion::vector(accel)),
                SHORTEST_GRAVITY as int,
            ) {
                None
            } else {
                Some(accel)
            },
            up == direction(accel),
    {
        if motion::shorter(motion::squared_length(accel), Fixed { pico: SHORTEST_GRAVITY }) {
            None
        } else {
            Some(accel)
        }
    }

    /// Finish a reset with the rotation of the acceleration onto world up. Where
    /// there is no single shortest rotation, the device being upside down, it takes
    /// the half turn.
    pub fn finish_reset(&mut self, rotation: Option<Q>, half_turn: Q)
        ensures
            final(self)@ == (FilterState {
                quat: match rotation {
                    Some(q) => q,
                    None => half_turn,
                },
                time_still: 0,
                ..old(self)@
            }),
            final(self)@ == old(self)@.after_event(
                Event::Reset(
                    match rotation {
                        Some(q) => q,
                        None => half_turn,
                    },
                ),
            ),
    {
        self.quat = match rotation {
            Some(q) => q,
            None => half_turn,
        };
        self.time_still = Long::zero();
    }

    /// Begin to update the filter with one sample.
    ///
    /// * `gyro`: `[gx, gy, gz]` in **rad/s** (already axis-remapped).
    /// * `accel`: `[ax, ay, az]` in **g** (already axis-remapped). Units must be g:
    ///   the motion-adaptive stillness gate compares the magnitude to 1.
    /// * `dt`: time since last call, in seconds.
    ///
    /// While still, the gain is boosted to the peak and then decays back to the base
    /// gain; while moving, it is the base gain.
    pub fn update(
        &mut self,
        gyro: [Fixed; 3],
        accel: [Fixed; 3],
        dt: Fixed,
    ) -> (step: FilterStep<Q>)
        ensures
            final(self)@ == old(self)@.after_sample(
                motion::vector(gyro),
                motion::vector(accel),
                dt.pico as int,
            ),
            step == (FilterStep {
                quat: old(self)@.quat,
                dt,
                gain: old(self)@.gain_for(
                    motion::vector(gyro),
                    motion::vector(accel),
                    dt.pico as int,
                ),
                gyro,
                accel,
            }),
            step == old(self)@.step_for(gyro, accel, dt),
    {
        let gain: Gain = match self.adaptive {
            Some(a) => {
                if a.is_still(gyro, accel) {
                    self.time_still = self.time_still.plus(dt);
                    if self.time_still.is_at_least(a.still_min_s) {
                        // The decay clock starts at the moment the boost engages.
                        let elapsed = self.time_still.minus(a.still_min_s);
                        proof {
                            wide::lemma_long_is_its_value(elapsed);
                        }
                        Gain::Boost {
                            base: self.beta,
                            peak: a.beta_peak,
                            elapsed,
                            tau: a.decay_tau,
                        }
                    } else {
                        Gain::Base(self.beta)
                    }
                } else {
                    self.time_still = Long::zero();
                    Gain::Base(self.beta)
                }
            },
            None => {
                self.time_still = Long::zero();
                Gain::Base(self.beta)
            },
        };
        FilterStep { quat: self.quat, dt, gain, gyro, accel }
    }

    /// Finish an update with the result of the filter. Returns the gyro unchanged
    /// plus the orientation: that of the filter, or the one before if it failed.
    pub fn finish_update<E>(&mut self, step: FilterStep<Q>, result: Result<Q, E>) -> (r: (
        [Fixed; 3],
        Q,
    ))
        ensures
            final(self)@ == old(self)@.after_filter(result),
            r.0 == step.gyro,
            r.1 == final(self)@.quat,
    {
        if let Ok(q) = result {
            self.quat = q;
        }
        (step.gyro, self.quat)
    }

    /// Current orientation without updating.
    pub fn quat(&self) -> (q: Q)
        ensures
            q == self@.quat,
    {
        self.quat
    }
}

/// Wraps [`Lsm6ds3tr`] with a [`MadgwickAhrs`] to produce orientations directly
/// from the sensor.
pub struct Lsm6ds3trAhrs<I2C, Q> {
    imu: Lsm6ds3tr<I2C>,
    ahrs: MadgwickAhrs<Q>,
}

/// What a sensor with a filter holds.
pub struct FusionState<I2C, Q> {
    pub imu: ImuState<I2C>,
    pub ahrs: FilterState<Q>,
}

impl<I2C, Q> View for Lsm6ds3trAhrs<I2C, Q> {
    type V = FusionState<I2C, Q>;

    closed spec fn view(&self) -> FusionState<I2C, Q> {
        FusionState { imu: self.imu@, ahrs: self.ahrs@ }
    }
}

/// Which reading of an update is due: first the accelerometer, then the gyroscope.
#[derive(Debug, Clone, Copy)]
pub enum Sampling {
    /// The accelerometer is to be read.
    Accelerometer,
    /// The accelerometer has been read, the gyroscope is to be read.
    Gyroscope { accel: (Fixed, Fixed, Fixed) },
}

/// Which reading of an update is due, with the acceleration read before.
pub enum Due {
    Accelerometer,
    Gyroscope { accel: (int, int, int) },
}

impl View for Sampling {
    type V = Due;

    open spec fn view(&self) -> Due {
        match self {
            Sampling::Accelerometer => Due::Accelerometer,
            Sampling::Gyroscope { accel } => Due::Gyroscope { accel: fixed::values(*accel) },
        }
    }
}

/// The transfer for the reading that is due.
pub open spec fn due_transfer(address: u8, due: Due) -> Transfer {
    Transfer::Read {
        address,
        register: match due {
            Due::Accelerometer => crate::transfer::REG_OUTX_L_XL,
            Due::Gyroscope { .. } => crate::transfer::REG_OUTX_L_G,
        },
        length: 6,
    }
}

/// What a reading leads to: the next one, or a complete sample.
pub enum Reading {
    Next(Due),
    Complete { gyro: (int, int, int), accel: (int, int, int) },
}

/// What the reply to the transfer that is due leads to.
pub open spec fn after_reading<I2C, E>(
    imu: ImuState<I2C>,
    due: Due,
    reply: Result<[u8; 6], E>,
) -> Result<Reading, Error<E>> {
    match reply {
        Ok(b) => match due {
            Due::Accelerometer => Ok(
                Reading::Next(Due::Gyroscope { accel: imu.decoder().acceleration(b@) }),
            ),
            Due::Gyroscope { accel } => Ok(
                Reading::Complete { gyro: imu.decoder().rate_rads(b@), accel },
            ),
        },
        Err(e) => Err(Error::I2c(e)),
    }
}

/// What is due after a reading.
#[derive(Debug)]
pub enum Progress {
    /// Another reading.
    Next(Sampling),
    /// Nothing: the sample is complete.
    Complete {
        /// Gyroscope `[x, y, z]` in rad/s.
        gyro: [Fixed; 3],
        /// Accelerometer `[x, y, z]` in g.
        accel: [Fixed; 3],
    },
}

impl View for Progress {
    type V = Reading;

    open spec fn view(&self) -> Reading {
        match self {
            Progress::Next(next) => Reading::Next(next@),
            Progress::Complete { gyro, accel } => Reading::Complete {
                gyro: motion::vector(*gyro),
                accel: motion::vector(*accel),
            },
        }
    }
}

impl<I2C, Q: Copy> Lsm6ds3trAhrs<I2C, Q> {
    /// Create a new instance, with the orientation to start from. `beta` is the
    /// filter gain (see [`MadgwickAhrs::new`]).
    pub fn new(imu: Lsm6ds3tr<I2C>, beta: Fixed, identity: Q) -> (device: Self)
        ensures
            device@.imu == imu@,
            device@.ahrs == FilterState::created(beta, identity),
    {
        Self { imu, ahrs: MadgwickAhrs::new(beta, identity) }
    }

    /// Enable motion-adaptive gain (see [`MadgwickAhrs::set_motion_adaptive`]).
    pub fn set_motion_adaptive(
        &mut self,
        beta_peak: Fixed,
        decay_tau: Fixed,
        accel_tol_g: Fixed,
        gyro_tol_rad_s: Fixed,
        still_min_s: Fixed,
    )
        ensures
            final(self)@.imu == old(self)@.imu,
            final(self)@.ahrs == (FilterState {
                adaptive: Some(
                    AdaptiveBeta {
                        beta_peak,
                        decay_tau,
                        accel_tol_g,
                        gyro_tol_rad_s,
                        still_min_s,
                    },
                ),
                ..old(self)@.ahrs
            }),
            final(self)@.ahrs == old(self)@.ahrs.after_event(
                Event::Enabled(
                    AdaptiveBeta::of(
                        beta_peak,
                        decay_tau,
                        accel_tol_g,
                        gyro_tol_rad_s,
                        still_min_s,
                    ),
                ),
            ),
    {
        self.ahrs.set_motion_adaptive(
            beta_peak,
            decay_tau,
            accel_tol_g,
            gyro_tol_rad_s,
            still_min_s,
        );
    }

    /// Disable motion-adaptive gain.
    pub fn clear_motion_adaptive(&mut self)
        ensures
            final(self)@.imu == old(self)@.imu,
            final(self)@.ahrs == (FilterState { adaptive: None, ..old(self)@.ahrs }),
            final(self)@.ahrs == old(self)@.ahrs.after_event(Event::Disabled),
    {
        self.ahrs.clear_motion_adaptive();
    }

    /// The transfer for the reading that is due.
    pub fn transfer(&self, sampling: &Sampling) -> (t: Transfer)
        ensures
            t == due_transfer(self@.imu.address, sampling@),
    {
        match sampling {
            Sampling::Accelerometer => self.imu.accelerometer_transfer(),
            Sampling::Gyroscope { .. } => self.imu.gyroscope_transfer(),
        }
    }

    /// Take in one reading of an update, from the reply to [`Self::transfer`].
    pub fn sample<E>(&self, sampling: Sampling, reply: Result<[u8; 6], E>) -> (r: Result<
        Progress,
        Error<E>,
    >)
        requires
            reply is Ok ==> self@.imu.axis_remap.wf(),
        ensures
            match after_reading(self@.imu, sampling@, reply) {
                Ok(reading) => r matches Ok(progress) && progress@ == reading,
                Err(e) => r == Err::<Progress, Error<E>>(e),
            },
    {
        match sampling {
            Sampling::Accelerometer => match self.imu.read_accelerometer(reply) {
                Ok(accel) => Ok(Progress::Next(Sampling::Gyroscope { accel })),
                Err(e) => Err(e),
            },
            Sampling::Gyroscope { accel: (ax, ay, az) } => match self.imu.read_gyroscope(reply) {
                Ok((gx, gy, gz)) => Ok(
                    Progress::Complete { gyro: [gx, gy, gz], accel: [ax, ay, az] },
                ),
                Err(e) => Err(e),
            },
        }
    }

    /// Begin to update the filter with the sample that was read.
    ///
    /// * `dt`: time since last call, in seconds.
    pub fn update(
        &mut self,
        gyro: [Fixed; 3],
        accel: [Fixed; 3],
        dt: Fixed,
    ) -> (step: FilterStep<Q>)
        ensures
            final(self)@.imu == old(self)@.imu,
            final(self)@.ahrs == old(self)@.ahrs.after_sample(
                motion::vector(gyro),
                motion::vector(accel),
                dt.pico as int,
            ),
            step == (FilterStep {
                quat: old(self)@.ahrs.quat,
                dt,
                gain: old(self)@.ahrs.gain_for(
                    motion::vector(gyro),
                    motion::vector(accel),
                    dt.pico as int,
                ),
                gyro,
                accel,
            }),
            step == old(self)@.ahrs.step_for(gyro, accel, dt),
    {
        self.ahrs.update(gyro, accel, dt)
    }

    /// Finish an update with the result of the filter. Returns both the gyroscope
    /// reading in rad/s (after remap) and the orientation.
    pub fn finish_update<E>(&mut self, step: FilterStep<Q>, result: Result<Q, E>) -> (r: (
        [Fixed; 3],
        Q,
    ))
        ensures
            final(self)@.imu == old(self)@.imu,
            final(self)@.ahrs == old(self)@.ahrs.after_filter(result),
            r.0 == step.gyro,
            r.1 == final(self)@.ahrs.quat,
    {
        self.ahrs.finish_update(step, result)
    }

    /// Finish an update with the result of the filter, and return only the
    /// orientation.
    pub fn get_quaternion<E>(&mut self, step: FilterStep<Q>, result: Result<Q, E>) -> (q: Q)
        ensures
            final(self)@.imu == old(self)@.imu,
            final(self)@.ahrs == old(self)@.ahrs.after_filter(result),
            q == final(self)@.ahrs.quat,
    {
        let (_, quat) = self.finish_update(step, result);
        quat
    }

    /// Access the underlying driver (e.g. to read temperature).
    pub fn imu(&mut self) -> (imu: &mut Lsm6ds3tr<I2C>)
        ensures
            imu@ == old(self)@.imu,
            final(self)@.imu == final(imu)@,
            final(self)@.ahrs == old(self)@.ahrs,
    {
        &mut self.imu
    }

    /// Access the inner transport-agnostic filter.
    pub fn ahrs(&mut self) -> (ahrs: &mut MadgwickAhrs<Q>)
        ensures
            ahrs@ == old(self)@.ahrs,
            final(self)@.ahrs == final(ahrs)@,
            final(self)@.imu == old(self)@.imu,
    {
        &mut self.ahrs
    }

    /// Consume the wrapper and return the underlying I2C bus.
    pub fn release(self) -> (bus: I2C)
        ensures
            bus == self@.imu.i2c,
    {
        self.imu.release()
    }
}

/// One sample that the filter is asked to take in.
pub struct Sample {
    pub gyro: (int, int, int),
    pub accel: (int, int, int),
    pub dt: Fixed,
}

/// One thing that is done to a filter.
pub enum Event<Q> {
    /// It takes a sample in.
    Sample(Sample),
    /// Its run gives an orientation.
    Filtered(Q),
    /// Its motion-adaptive gain is set.
    Enabled(AdaptiveBeta),
    /// Its motion-adaptive gain is cleared.
    Disabled,
    /// Its orientation is reset.
    Reset(Q),
}

impl<Q> FilterState<Q> {
    /// A new filter.
    pub open spec fn created(beta: Fixed, identity: Q) -> FilterState<Q> {
        FilterState { quat: identity, beta, adaptive: None, time_still: 0 }
    }

    /// The state after one event.
    pub open spec fn after_event(self, event: Event<Q>) -> FilterState<Q> {
        match event {
            Event::Sample(s) => self.after_sample(s.gyro, s.accel, s.dt.pico as int),
            Event::Filtered(q) => self.after_filter(Ok::<Q, ()>(q)),
            Event::Enabled(a) => FilterState { adaptive: Some(a), ..self },
            Event::Disabled => FilterState { adaptive: None, ..self },
            Event::Reset(q) => FilterState { quat: q, time_still: 0, ..self },
        }
    }

    /// The state after events, in order.
    pub open spec fn after_events(self, events: Seq<Event<Q>>) -> FilterState<Q>
        decreases events.len(),
    {
        if events.len() == 0 {
            self
        } else {
            self.after_events(events.drop_last()).after_event(events.last())
        }
    }

    /// The gain for a sample that comes after events.
    pub open spec fn gain_after(self, events: Seq<Event<Q>>, s: Sample) -> Gain {
        self.after_events(events).gain_for(s.gyro, s.accel, s.dt.pico as int)
    }
}

/// The motion-adaptive gain that is in force after events.
pub open spec fn setting<Q>(events: Seq<Event<Q>>) -> Option<AdaptiveBeta>
    decreases events.len(),
{
    if events.len() == 0 {
        None
    } else {
        match events.last() {
            Event::Enabled(a) => Some(a),
            Event::Disabled => None,
            _ => setting(events.drop_last()),
        }
    }
}

/// Whether a sample is a still one under the setting in force.
pub open spec fn is_still_under(setting: Option<AdaptiveBeta>, s: Sample) -> bool {
    setting matches Some(a) && a.still(s.gyro, s.accel)
}

/// How long the device has been seen to be continuously still after events: the
/// time that the samples took since the last one that was not still and since the
/// orientation was reset. Each is judged by the setting in force when it came, and
/// where none was in force it was not seen to be still.
pub open spec fn pause<Q>(events: Seq<Event<Q>>) -> int
    decreases events.len(),
{
    if events.len() == 0 {
        0
    } else {
        let earlier = events.drop_last();
        match events.last() {
            Event::Sample(s) => if is_still_under(setting(earlier), s) {
                pause(earlier) + s.dt.pico
            } else {
                0
            },
            Event::Filtered(_) | Event::Enabled(_) | Event::Disabled => pause(earlier),
            Event::Reset(_) => 0,
        }
    }
}

/// A pause is no longer than so many samples can be.
proof fn lemma_pause_is_bounded<Q>(events: Seq<Event<Q>>)
    ensures
        -events.len() * 0x8000_0000_0000_0000_0000_0000_0000_0000 <= pause(events)
            <= events.len() * 0x8000_0000_0000_0000_0000_0000_0000_0000,
    decreases events.len(),
{
    if events.len() > 0 {
        lemma_pause_is_bounded(events.drop_last());
    }
}

/// What is known of a filter after everything that was ever done to it: the base
/// gain is the one it was made with, the adaptive gain the one in force, and the
/// still time how long the device has been continuously still. No filter lives
/// through more events than sixty-three bits can count.
pub proof fn law_still_time_is_the_pause<Q>(beta: Fixed, identity: Q, events: Seq<Event<Q>>)
    requires
        events.len() <= i64::MAX,
    ensures
        ({
            let state = FilterState::created(beta, identity).after_events(events);
            &&& state.beta == beta
            &&& state.adaptive == setting(events)
            &&& state.time_still == pause(events)
        }),
    decreases events.len(),
{
    if events.len() > 0 {
        law_still_time_is_the_pause(beta, identity, events.drop_last());
        lemma_pause_is_bounded(events);
    }
}

/// The gain is boosted exactly when the adaptive gain is in force, the sample is
/// still and the device has been so, continuously, for the minimum time; the decay
/// is counted from the moment that the minimum was reached.
pub proof fn law_boost_takes_a_long_pause<Q>(
    beta: Fixed,
    identity: Q,
    events: Seq<Event<Q>>,
    s: Sample,
)
    requires
        events.len() < i64::MAX,
    ensures
        ({
            let gain = FilterState::created(beta, identity).gain_after(events, s);
            let still = pause(events.push(Event::Sample(s)));
            match setting(events) {
                Some(a) => if a.still(s.gyro, s.accel) && still >= a.still_min_s.pico {
                    &&& gain matches Gain::Boost { base, peak, elapsed, tau }
                    &&& base == beta
                    &&& peak == a.beta_peak
                    &&& tau == a.decay_tau
                    &&& elapsed.value() == still - a.still_min_s.pico
                } else {
                    gain == Gain::Base(beta)
                },
                None => gain == Gain::Base(beta),
            }
        }),
{
    let all = events.push(Event::Sample(s));
    assert(all.drop_last() =~= events);
    law_still_time_is_the_pause(beta, identity, events);
    lemma_pause_is_bounded(all);
}

/// Rhythmic motion, no quiet gap of which lasts for the minimum time, never fires
/// a boost.
pub proof fn law_short_pauses_never_boost<Q>(
    beta: Fixed,
    identity: Q,
    events: Seq<Event<Q>>,
)
    requires
        events.len() <= i64::MAX,
        forall|k: int|
            0 <= k < events.len() && events[k] is Sample ==> (setting(
                #[trigger] events.take(k),
            ) matches Some(a) ==> pause(events.take(k + 1)) < a.still_min_s.pico),
    ensures
        forall|k: int|
            0 <= k < events.len() && events[k] is Sample ==> FilterState::created(
                beta,
                identity,
            ).gain_after(#[trigger] events.take(k), events[k]->Sample_0) == Gain::Base(beta),
{
    assert forall|k: int| 0 <= k < events.len() && events[k] is Sample implies
        FilterState::created(beta, identity).gain_after(
        #[trigger] events.take(k),
        events[k]->Sample_0,
    ) == Gain::Base(beta) by {
        let s = events[k]->Sample_0;
        assert(events.take(k).push(Event::Sample(s)) =~= events.take(k + 1));
        law_boost_takes_a_long_pause(beta, identity, events.take(k), s);
    }
}

/// The time that the samples among events took.
pub open spec fn time_of<Q>(events: Seq<Event<Q>>) -> int
    decreases events.len(),
{
    if events.len() == 0 {
        0
    } else {
        time_of(events.drop_last()) + match events.last() {
            Event::Sample(s) => s.dt.pico as int,
            _ => 0,
        }
    }
}

/// Every sample of a pause was a still one: if the device has been seen to be still
/// for any time, there is a run of events up to the present in which each sample was
/// still under the setting in force, the orientation was not reset, and the samples
/// took that time.
pub proof fn law_pause_is_an_unbroken_run<Q>(events: Seq<Event<Q>>) -> (start: int)
    ensures
        0 <= start <= events.len(),
        forall|k: int|
            start <= k < events.len() ==> match events[k] {
                Event::Sample(s) => is_still_under(setting(#[trigger] events.take(k)), s),
                Event::Reset(_) => false,
                _ => true,
            },
        pause(events) == time_of(events.skip(start)),
    decreases events.len(),
{
    if events.len() == 0 {
        assert(events.skip(0) =~= events);
        0
    } else {
        let n = events.len() as int;
        let earlier = events.drop_last();
        assert(events.take(n - 1) =~= earlier);
        let breaks = match events.last() {
            Event::Sample(s) => !is_still_under(setting(earlier), s),
            Event::Reset(_) => true,
            _ => false,
        };
        if breaks {
            assert(events.skip(n).len() == 0);
            n
        } else {
            let start = law_pause_is_an_unbroken_run(earlier);
            assert forall|k: int| start <= k < n implies match events[k] {
                Event::Sample(s) => is_still_under(setting(#[trigger] events.take(k)), s),
                Event::Reset(_) => false,
                _ => true,
            } by {
                if k < n - 1 {
                    assert(earlier.take(k) =~= events.take(k));
                    assert(earlier[k] == events[k]);
                }
            }
            assert(events.skip(start).drop_last() =~= earlier.skip(start));
            start
        }
    }
}

/// Setting and clearing the gain change the setting alone. What ends the still time
/// is a sample that comes while no gain is set.
pub proof fn law_unwatched_sample_starts_anew<Q>(
    state: FilterState<Q>,
    a: AdaptiveBeta,
    s: Sample,
)
    ensures
        ({
            let cleared = state.after_event(Event::Disabled);
            &&& cleared.after_event(Event::Enabled(a)) == (FilterState {
                adaptive: Some(a),
                ..state
            })
            &&& cleared.after_event(Event::Sample(s)).after_event(Event::Enabled(a))
                == (FilterState { adaptive: Some(a), time_still: 0, ..state })
        }),
{
}

/// A moving sample takes the base gain and starts the still time anew.
pub proof fn law_movement_takes_the_base_gain<Q>(state: FilterState<Q>, s: Sample)
    requires
        state.adaptive matches Some(a) && !a.still(s.gyro, s.accel),
    ensures
        state.gain_for(s.gyro, s.accel, s.dt.pico as int) == Gain::Base(state.beta),
        state.after_event(Event::Sample(s)).time_still == 0,
{
}

/// Without the adaptive gain a sample takes the base gain, and is not a still one.
pub proof fn law_disabled_gain_is_constant<Q>(state: FilterState<Q>, s: Sample)
    requires
        state.adaptive is None,
    ensures
        state.gain_for(s.gyro, s.accel, s.dt.pico as int) == Gain::Base(state.beta),
        state.after_event(Event::Sample(s)) == (FilterState { time_still: 0, ..state }),
{
}

/// With a minimum of zero the first still sample is boosted.
pub proof fn law_zero_minimum_boosts_at_once<Q>(state: FilterState<Q>, s: Sample)
    requires
        state.adaptive matches Some(a) && a.still_min_s.pico == 0 && a.still(s.gyro, s.accel),
        state.time_still >= 0,
        s.dt.pico >= 0,
    ensures
        state.gain_for(s.gyro, s.accel, s.dt.pico as int) is Boost,
{
}

/// The result of the filter changes the orientation alone, and a failure nothing.
pub proof fn law_filter_result_changes_the_orientation<Q, E>(
    state: FilterState<Q>,
    result: Result<Q, E>,
)
    ensures
        state.after_filter(result) == (FilterState {
            quat: state.after_filter(result).quat,
            ..state
        }),
        result matches Ok(q) ==> state.after_filter(result).quat == q,
        result is Err ==> state.after_filter(result) == state,
{
}

/// The readings of an update: the transfers carried out, the filter afterwards and
/// what came of it.
pub struct UpdateRun<Q, E> {
    pub transfers: Seq<Transfer>,
    pub ahrs: FilterState<Q>,
    pub outcome: Result<(), Error<E>>,
}

/// The readings of an update from one that is due, when the bus answers with
/// `replies`.
pub open spec fn run_update<I2C, Q, E>(
    device: FusionState<I2C, Q>,
    due: Due,
    replies: Seq<Result<[u8; 6], E>>,
    dt: int,
) -> UpdateRun<Q, E>
    decreases
        match due {
            Due::Accelerometer => 1int,
            Due::Gyroscope { .. } => 0int,
        },
{
    let t = due_transfer(device.imu.address, due);
    match after_reading(device.imu, due, replies[0]) {
        Ok(Reading::Next(next)) => {
            let rest = run_update(device, next, replies.drop_first(), dt);
            UpdateRun { transfers: seq![t] + rest.transfers, ..rest }
        },
        Ok(Reading::Complete { gyro, accel }) => UpdateRun {
            transfers: seq![t],
            ahrs: device.ahrs.after_sample(gyro, accel, dt),
            outcome: Ok(()),
        },
        Err(e) => UpdateRun { transfers: seq![t], ahrs: device.ahrs, outcome: Err(e) },
    }
}

/// An update reads the accelerometer, then the gyroscope, and then the filter takes
/// the sample in. The first reading that fails ends it: nothing is read after it,
/// the filter is not touched, and its error is the outcome.
pub proof fn law_update_reads_both_sensors<I2C, Q, E>(
    device: FusionState<I2C, Q>,
    replies: Seq<Result<[u8; 6], E>>,
    dt: int,
)
    requires
        replies.len() == 2,
    ensures
        ({
            let run = run_update(device, Due::Accelerometer, replies, dt);
            let first = Transfer::Read {
                address: device.imu.address,
                register: crate::transfer::REG_OUTX_L_XL,
                length: 6,
            };
            let second = Transfer::Read {
                address: device.imu.address,
                register: crate::transfer::REG_OUTX_L_G,
                length: 6,
            };
            match (replies[0], replies[1]) {
                (Err(e), _) => {
                    &&& run.transfers == seq![first]
                    &&& run.ahrs == device.ahrs
                    &&& run.outcome == Err::<(), Error<E>>(Error::I2c(e))
                },
                (Ok(_), Err(e)) => {
                    &&& run.transfers == seq![first, second]
                    &&& run.ahrs == device.ahrs
                    &&& run.outcome == Err::<(), Error<E>>(Error::I2c(e))
                },
                (Ok(a), Ok(g)) => {
                    &&& run.transfers == seq![first, second]
                    &&& run.ahrs == device.ahrs.after_sample(
                        device.imu.decoder().rate_rads(g@),
                        device.imu.decoder().acceleration(a@),
                        dt,
                    )
                    &&& run.outcome == Ok::<(), Error<E>>(())
                },
            }
        }),
{
    reveal_with_fuel(run_update, 2);
    assert(replies.drop_first()[0] == replies[1]);
    let run = run_update(device, Due::Accelerometer, replies, dt);
    if replies[0] is Ok {
        assert(run.transfers =~= seq![
            due_transfer(device.imu.address, Due::Accelerometer),
            due_transfer(device.imu.address, Due::Gyroscope { accel: (0, 0, 0) }),
        ]);
    }
}

/// Registers relayed over another transport give the same update as the bus: a
/// sample decoded from a block of gyroscope and accelerometer bytes is that of the
/// two readings, and so are the gain and the still time.
pub proof fn law_relayed_block_gives_the_same_update<I2C, Q>(
    device: FusionState<I2C, Q>,
    gyro_bytes: Seq<u8>,
    accel_bytes: Seq<u8>,
    sample: ImuSample,
    dt: int,
)
    requires
        gyro_bytes.len() == 6,
        accel_bytes.len() == 6,
        ({
            let block = gyro_bytes + accel_bytes;
            &&& sample.gyro() == device.imu.decoder().rate_rads(block.subrange(0, 6))
            &&& sample.accel() == device.imu.decoder().acceleration(block.subrange(6, 12))
        }),
    ensures
        ({
            let gyro = device.imu.decoder().rate_rads(gyro_bytes);
            let accel = device.imu.decoder().acceleration(accel_bytes);
            &&& sample.gyro() == gyro
            &&& sample.accel() == accel
            &&& device.ahrs.gain_for(sample.gyro(), sample.accel(), dt) == device.ahrs.gain_for(
                gyro,
                accel,
                dt,
            )
            &&& device.ahrs.after_sample(sample.gyro(), sample.accel(), dt)
                == device.ahrs.after_sample(gyro, accel, dt)
        }),
{
    let block = gyro_bytes + accel_bytes;
    assert(block.subrange(0, 6) =~= gyro_bytes);
    assert(block.subrange(6, 12) =~= accel_bytes);
}

/// What is done to a filter changes what it names and nothing else. A new filter has
/// the orientation and the base gain that it was given, no adaptive gain, and has not
/// been still for any time.
pub proof fn law_events_change_what_they_name<Q>(
    state: FilterState<Q>,
    beta: Fixed,
    q: Q,
    a: AdaptiveBeta,
    s: Sample,
)
    ensures
        ({
            let new = FilterState::created(beta, q);
            new.quat == q && new.beta == beta && new.adaptive is None && new.time_still == 0
        }),
        ({
            let set = state.after_event(Event::Enabled(a));
            &&& set.adaptive == Some(a)
            &&& set.quat == state.quat && set.beta == state.beta
            &&& set.time_still == state.time_still
        }),
        ({
            let cleared = state.after_event(Event::Disabled);
            &&& cleared.adaptive is None
            &&& cleared.quat == state.quat && cleared.beta == state.beta
            &&& cleared.time_still == state.time_still
        }),
        ({
            let reset = state.after_event(Event::Reset(q));
            &&& reset.quat == q && reset.time_still == 0
            &&& reset.beta == state.beta && reset.adaptive == state.adaptive
        }),
        ({
            let filtered = state.after_event(Event::Filtered(q));
            &&& filtered.quat == q
            &&& filtered.beta == state.beta && filtered.adaptive == state.adaptive
            &&& filtered.time_still == state.time_still
        }),
        ({
            let sampled = state.after_event(Event::Sample(s));
            &&& sampled.quat == state.quat
            &&& sampled.beta == state.beta && sampled.adaptive == state.adaptive
        }),
{
}

/// What a sample does to a filter, on the components of the sample: with the length
/// `m` of the acceleration and the length `w` of the angular rate, a sample with
/// `|m - 1|` and `w` below the tolerances adds its time to the still time, and any
/// other sample ends it. Where the still time has reached the minimum, the gain is
/// the peak that decays since; otherwise it is the base gain.
pub proof fn law_sample_is_judged_by_its_magnitudes<Q>(
    state: FilterState<Q>,
    gyro: [Fixed; 3],
    accel: [Fixed; 3],
    dt: Fixed,
    m: real,
    w: real,
)
    requires
        m >= 0 as real,
        m * m == ((accel[0].pico * accel[0].pico + accel[1].pico * accel[1].pico
            + accel[2].pico * accel[2].pico) as real),
        w >= 0 as real,
        w * w == ((gyro[0].pico * gyro[0].pico + gyro[1].pico * gyro[1].pico
            + gyro[2].pico * gyro[2].pico) as real),
        ({
            let bound = 0x2000_0000_0000_0000_0000_0000_0000_0000 * wide::limb();
            -bound <= state.time_still <= bound
        }),
    ensures
        ({
            let (g, a) = (motion::vector(gyro), motion::vector(accel));
            let after = state.after_sample(g, a, dt.pico as int);
            let gain = state.gain_for(g, a, dt.pico as int);
            match state.adaptive {
                None => after.time_still == 0 && gain == Gain::Base(state.beta),
                Some(s) => {
                    let still = {
                        &&& m - (1_000_000_000_000int as real) < (s.accel_tol_g.pico as real)
                        &&& (1_000_000_000_000int as real) - m < (s.accel_tol_g.pico as real)
                        &&& w < (s.gyro_tol_rad_s.pico as real)
                    };
                    let time = state.time_still + dt.pico;
                    &&& after.time_still == if still {
                        time
                    } else {
                        0
                    }
                    &&& if still && time >= s.still_min_s.pico {
                        &&& gain matches Gain::Boost { base, peak, elapsed, tau }
                        &&& base == state.beta
                        &&& peak == s.beta_peak
                        &&& tau == s.decay_tau
                        &&& elapsed.value() == time - s.still_min_s.pico
                    } else {
                        gain == Gain::Base(state.beta)
                    }
                },
            }
        }),
{
    if let Some(s) = state.adaptive {
        motion::law_still_means_at_one_g_and_not_turning(s, gyro, accel, m, w);
        let time = state.time_still + dt.pico;
        wide::law_long_has_two_limbs(Long { high: 0, low: 0 }, time);
        wide::law_long_has_two_limbs(Long { high: 0, low: 0 }, time - s.still_min_s.pico);
    }
}

/// An acceleration has a direction, and is given out as it is, unless its length `m`
/// is below a millionth of a g.
pub proof fn law_reset_needs_a_millionth_of_a_g(accel: [Fixed; 3], m: real)
    requires
        m >= 0 as real,
        m * m == ((accel[0].pico * accel[0].pico + accel[1].pico * accel[1].pico
            + accel[2].pico * accel[2].pico) as real),
    ensures
        direction(accel) is None <==> m < (1_000_000int as real),
        direction(accel) matches Some(up) ==> up == accel,
{
    let s = accel[0].pico * accel[0].pico + accel[1].pico * accel[1].pico + accel[2].pico
        * accel[2].pico;
    motion::law_stillness_compares_magnitudes(m, s, 1_000_000);
}

/// An update asks for six bytes from register 0x28 on, and then for six from
/// register 0x22 on, of the device at its address.
pub proof fn law_update_reads_registers_in_order(address: u8, accel: (int, int, int))
    ensures
        due_transfer(address, Due::Accelerometer) == (Transfer::Read {
            address,
            register: 0x28,
            length: 6,
        }),
        due_transfer(address, Due::Gyroscope { accel }) == (Transfer::Read {
            address,
            register: 0x22,
            length: 6,
        }),
{
}

/// The sample that comes of the two replies of an update is, component by component,
/// what the accelerometer bytes of the first and the gyroscope bytes of the second
/// decode to.
pub proof fn law_sample_is_what_the_replies_decode_to<I2C>(
    imu: ImuState<I2C>,
    first: [u8; 6],
    second: [u8; 6],
    begin: Sampling,
    between: Progress,
    end: Progress,
    g: (Fixed, Fixed, Fixed),
    rads: (Fixed, Fixed, Fixed),
)
    requires
        begin is Accelerometer,
        after_reading(imu, begin@, Ok::<[u8; 6], ()>(first)) == Ok::<Reading, Error<()>>(between@),
        between matches Progress::Next(next) && after_reading(
            imu,
            next@,
            Ok::<[u8; 6], ()>(second),
        ) == Ok::<Reading, Error<()>>(end@),
        fixed::values(g) == imu.decoder().acceleration(first@),
        fixed::values(rads) == imu.decoder().rate_rads(second@),
    ensures
        ({
            &&& end matches Progress::Complete { gyro, accel }
            &&& gyro[0] == rads.0 && gyro[1] == rads.1 && gyro[2] == rads.2
            &&& accel[0] == g.0 && accel[1] == g.1 && accel[2] == g.2
        }),
{
}

/// After the first reply there is always a second reading, and a reply that is an
/// error gives that error and nothing else.
pub proof fn law_update_takes_two_replies<I2C, E>(
    imu: ImuState<I2C>,
    begin: Sampling,
    b: [u8; 6],
    e: E,
)
    requires
        begin is Accelerometer,
    ensures
        after_reading(imu, begin@, Ok::<[u8; 6], E>(b)) matches Ok(Reading::Next(
            Due::Gyroscope { .. },
        )),
        forall|due: Due| #[trigger]
            after_reading(imu, due, Err::<[u8; 6], E>(e)) == Err::<Reading, Error<E>>(
                Error::I2c(e),
            ),
{
}

/// The five values of an adaptive gain go where they belong, and the filter runs
/// from its orientation, over the time and on the sample that it is given.
pub proof fn law_filter_runs_on_what_it_is_given<Q>(
    state: FilterState<Q>,
    values: [Fixed; 5],
    gyro: [Fixed; 3],
    accel: [Fixed; 3],
    dt: Fixed,
)
    ensures
        ({
            let a = AdaptiveBeta::of(values[0], values[1], values[2], values[3], values[4]);
            &&& a.beta_peak == values[0]
            &&& a.decay_tau == values[1]
            &&& a.accel_tol_g == values[2]
            &&& a.gyro_tol_rad_s == values[3]
            &&& a.still_min_s == values[4]
        }),
        ({
            let step = state.step_for(gyro, accel, dt);
            &&& step.quat == state.quat
            &&& step.dt == dt
            &&& step.gyro == gyro
            &&& step.accel == accel
            &&& step.gain == state.gain_for(
                motion::vector(gyro),
                motion::vector(accel),
                dt.pico as int,
            )
        }),
{
}

} // verus!
