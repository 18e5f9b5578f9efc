//! Measurement of algorithm running times.
//!
//! The engine times an algorithm on one input by invoking it in a loop
//! until enough wall-clock time has accumulated for the clock's
//! resolution to contribute less than the requested relative error, then
//! reports the mean duration per call. Per-size timings are aggregated
//! into a [`Point`] per group, a [`Measurement`] per algorithm, and a
//! [`Measurements`] for the whole run. Durations are nanosecond counts.
//!
//! A pathologically cheap call under a very small relative error could
//! make a timing loop spin indefinitely; each loop therefore carries an
//! explicit iteration cap and surfaces [`Error::Timeout`] when the cap
//! is reached, preserving the precision contract whenever it is not.

use vstd::arithmetic::div_mod::*;
use vstd::prelude::*;

use crate::input::{Input, InputSet};
use crate::numeric::{floor_log2, log2_floor, Ratio, Rational};
use crate::Error;

verus! {

/// The iteration cap of every timing loop: far above what any
/// realistic precision target needs, yet low enough that an
/// unreachable target surfaces [`Error::Timeout`] in bounded time.
pub const MAX_TIMING_CALLS: u64 = 100_000_000;

/// The number of clock samples averaged by [`get_average_resolution`].
pub const RESOLUTION_SAMPLES: u64 = 100;

/// Relies on `std::time::Instant`: an opaque reading of the system's
/// monotonic clock, carried between the trusted clock calls.
#[verifier::external_type_specification]
#[verifier::external_body]
pub struct ExInstant(std::time::Instant);

/// Relies on `std::time::Instant::now`: a reading of the system's
/// monotonic clock. Nothing is assumed of the value.
#[verifier::external_body]
fn instant_now() -> std::time::Instant {
    std::time::Instant::now()
}

/// Relies on `std::time::Instant::elapsed`: the time since `start`,
/// converted to nanoseconds, saturating at `u64::MAX`. Nothing is
/// assumed of the value: the clock advances on its own.
#[verifier::external_body]
fn elapsed_nanos(start: &std::time::Instant) -> u64 {
    u64::try_from(start.elapsed().as_nanos()).unwrap_or(u64::MAX)
}

/// Estimates the resolution of the clock: the clock is read against a
/// fresh start until two readings differ, and that first nonzero elapsed
/// time is one sample of its granularity. Should the clock never advance
/// within the attempt bound, the smallest representable tick is reported.
pub fn get_resolution() -> (r: u64)
    ensures
        r >= 1,
{
    let start = instant_now();
    let mut tries: u64 = 0;
    while tries < MAX_TIMING_CALLS
        decreases MAX_TIMING_CALLS - tries,
    {
        let end = elapsed_nanos(&start);
        if end != 0 {
            return end;
        }
        tries = tries + 1;
    }
    1
}

/// Estimates the resolution of the clock by averaging
/// [`RESOLUTION_SAMPLES`] samples, smoothing out jitter.
pub fn get_average_resolution() -> (r: u64)
    ensures
        r >= 1,
{
    let mut sum: u128 = 0;
    let mut i: u64 = 0;
    while i < RESOLUTION_SAMPLES
        invariant
            i <= RESOLUTION_SAMPLES,
            i <= sum <= (i as u128) * 0xffff_ffff_ffff_ffff,
        decreases RESOLUTION_SAMPLES - i,
    {
        let sample = get_resolution();
        proof {
            assert((i as int + 1) * 0xffff_ffff_ffff_ffff == i as int * 0xffff_ffff_ffff_ffff
                + 0xffff_ffff_ffff_ffff) by (nonlinear_arith) {}
        }
        sum = sum + sample as u128;
        i = i + 1;
    }
    proof {
        lemma_div_is_ordered(sum as int, 100int * 0xffff_ffff_ffff_ffff, 100);
        assert((0xffff_ffff_ffff_ffff * 100) / 100 == 0xffff_ffff_ffff_ffff) by {
            lemma_div_by_multiple(0xffff_ffff_ffff_ffff, 100);
        }
    }
    (sum / (RESOLUTION_SAMPLES as u128)) as u64
}

/// A named algorithm that reads its input: the capability handed to
/// [`measure`]. The returned value of the measured function is
/// discarded by the caller's implementation; the call is timed for its
/// cost alone.
pub trait AlgorithmRef<I> {
    /// The name of the algorithm, as a specification value.
    spec fn name_spec(&self) -> Seq<char>;

    /// Returns the name of the algorithm.
    fn name(&self) -> (r: String)
        ensures
            r@ == self.name_spec(),
    ;

    /// Runs the algorithm once on the input.
    fn run(&self, input: &I);
}

/// A named algorithm that mutates its input: the capability handed to
/// [`measure_mut`].
pub trait AlgorithmMut<I> {
    /// The name of the algorithm, as a specification value.
    spec fn name_spec(&self) -> Seq<char>;

    /// Returns the name of the algorithm.
    fn name(&self) -> (r: String)
        ensures
            r@ == self.name_spec(),
    ;

    /// Runs the algorithm once, consuming or rearranging the input.
    fn run(&self, input: &mut I);
}

/// The smallest total elapsed time that bounds the clock-resolution
/// error of a measurement below the relative-error target:
/// `resolution * (1 / relative_error + 1)`, truncated, saturating at
/// `u64::MAX`.
pub open spec fn min_measurable_spec(relative_error: Ratio, resolution: u64) -> u64 {
    let m = (relative_error.den as int) / (relative_error.num as int) + 1;
    if (resolution as int) * m > 0xffff_ffff_ffff_ffff {
        0xffff_ffff_ffff_ffff
    } else {
        ((resolution as int) * m) as u64
    }
}

/// Computes [`min_measurable_spec`].
fn min_measurable(relative_error: &Ratio, resolution: u64) -> (r: u64)
    requires
        relative_error.wf(),
    ensures
        r == min_measurable_spec(*relative_error, resolution),
{
    let m: u128 = (relative_error.den / relative_error.num) as u128 + 1;
    proof {
        assert((resolution as int) * (m as int) < 0x100000000000000000000000000000000)
            by (nonlinear_arith)
            requires
                (resolution as int) < 0x10000000000000000,
                0 <= (m as int) <= 0x10000000000000000,
        {}
    }
    let prod: u128 = (resolution as u128) * m;
    if prod > 0xffff_ffff_ffff_ffff {
        0xffff_ffff_ffff_ffff
    } else {
        prod as u64
    }
}

/// One raw timing: the accumulated elapsed wall-clock time (net of any
/// excluded overhead) and the number of algorithm calls that produced it.
#[derive(Clone, Copy, Debug, PartialEq, Eq, Structural)]
pub struct TimingSample {
    /// Elapsed time, in nanoseconds.
    pub elapsed: u64,
    /// Number of calls.
    pub calls: u64,
}

/// Times one algorithm on one input: the algorithm runs repeatedly until
/// the elapsed time exceeds the minimum measurable time, and the raw
/// sample is returned. At loop exit the elapsed time is strictly above
/// `min_measurable_spec(relative_error, resolution)` and at least one
/// call has been made.
pub fn get_time_sample<I: Input, A: AlgorithmRef<I>>(
    f: &A,
    input: &I,
    relative_error: &Ratio,
    resolution: u64,
) -> (r: Result<TimingSample, Error>)
    requires
        relative_error.wf(),
    ensures
        match r {
            Ok(s) => 1 <= s.calls && s.elapsed > min_measurable_spec(*relative_error, resolution),
            Err(e) => e == Error::Timeout,
        },
{
    let m = min_measurable(relative_error, resolution);
    let mut n: u64 = 0;
    let start = instant_now();
    while n < MAX_TIMING_CALLS
        invariant
            m == min_measurable_spec(*relative_error, resolution),
            n <= MAX_TIMING_CALLS,
        decreases MAX_TIMING_CALLS - n,
    {
        f.run(input);
        n = n + 1;
        let end = elapsed_nanos(&start);
        if end > m {
            return Ok(TimingSample { elapsed: end, calls: n });
        }
    }
    Err(Error::Timeout)
}

/// Times one algorithm on one input and returns the mean duration of a
/// call: the elapsed time of the raw sample divided by its number of
/// calls.
pub fn get_time<I: Input, A: AlgorithmRef<I>>(
    f: &A,
    input: &I,
    relative_error: &Ratio,
    resolution: u64,
) -> (r: Result<u64, Error>)
    requires
        relative_error.wf(),
    ensures
        match r {
            Ok(mean) => exists|s: TimingSample|
                1 <= s.calls && s.elapsed > min_measurable_spec(*relative_error, resolution)
                    && mean == #[trigger] (s.elapsed / s.calls),
            Err(e) => e == Error::Timeout,
        },
{
    match get_time_sample(f, input, relative_error, resolution) {
        Ok(s) => {
            proof {
                assert(1 <= s.calls && s.elapsed > min_measurable_spec(*relative_error, resolution)
                    && s.elapsed / s.calls == s.elapsed / s.calls);
            }
            Ok(s.elapsed / s.calls)
        },
        Err(e) => Err(e),
    }
}

/// Times one mutating algorithm on one input. Because the algorithm
/// consumes its input, every call starts from a fresh clone; the time
/// spent cloning is measured separately and subtracted from the running
/// total, so that the sample approximates pure algorithm cost.
pub fn get_time_sample_mut<I: Input + Clone, A: AlgorithmMut<I>>(
    f: &A,
    input: &I,
    relative_error: &Ratio,
    resolution: u64,
) -> (r: Result<TimingSample, Error>)
    requires
        relative_error.wf(),
    ensures
        match r {
            Ok(s) => 1 <= s.calls && s.elapsed > min_measurable_spec(*relative_error, resolution),
            Err(e) => e == Error::Timeout,
        },
{
    let m = min_measurable(relative_error, resolution);
    let mut n: u64 = 0;
    let mut clone_total: u64 = 0;
    let start = instant_now();
    while n < MAX_TIMING_CALLS
        invariant
            m == min_measurable_spec(*relative_error, resolution),
            n <= MAX_TIMING_CALLS,
        decreases MAX_TIMING_CALLS - n,
    {
        let clone_start = instant_now();
        let mut cloned = input.clone();
        n = n + 1;
        let clone_time = elapsed_nanos(&clone_start);
        f.run(&mut cloned);
        clone_total = if clone_total <= 0xffff_ffff_ffff_ffff - clone_time {
            clone_total + clone_time
        } else {
            0xffff_ffff_ffff_ffff
        };
        let raw = elapsed_nanos(&start);
        let end = if raw >= clone_total {
            raw - clone_total
        } else {
            0
        };
        if end > m {
            return Ok(TimingSample { elapsed: end, calls: n });
        }
    }
    Err(Error::Timeout)
}

/// Times one mutating algorithm on one input and returns the mean
/// duration of a call, net of cloning overhead.
pub fn get_time_mut<I: Input + Clone, A: AlgorithmMut<I>>(
    f: &A,
    input: &I,
    relative_error: &Ratio,
    resolution: u64,
) -> (r: Result<u64, Error>)
    requires
        relative_error.wf(),
    ensures
        match r {
            Ok(mean) => exists|s: TimingSample|
                1 <= s.calls && s.elapsed > min_measurable_spec(*relative_error, resolution)
                    && mean == #[trigger] (s.elapsed / s.calls),
            Err(e) => e == Error::Timeout,
        },
{
    match get_time_sample_mut(f, input, relative_error, resolution) {
        Ok(s) => {
            proof {
                assert(1 <= s.calls && s.elapsed > min_measurable_spec(*relative_error, resolution)
                    && s.elapsed / s.calls == s.elapsed / s.calls);
            }
            Ok(s.elapsed / s.calls)
        },
        Err(e) => Err(e),
    }
}

/// One aggregated observation: the nominal input size of a group and the
/// total of the mean durations measured over its repetitions, in
/// nanoseconds.
#[derive(Clone, Copy, Debug, PartialEq, Eq, Structural)]
pub struct Point {
    /// The size of the input.
    pub size: usize,
    /// The time it took to process the input, in nanoseconds.
    pub time: u64,
}

/// The full size/time series of one algorithm. The points follow the
/// order of the generated sizes; they are not sorted by size.
pub struct Measurement {
    /// The name of the algorithm.
    pub algorithm_name: String,
    /// The points of the series.
    pub measurement: Vec<Point>,
}

/// The series of every measured algorithm, with the metadata shared by
/// the whole run.
pub struct Measurements {
    /// One measurement per algorithm.
    pub measurements: Vec<Measurement>,
    /// The relative-error target of the run.
    pub relative_error: Ratio,
    /// The estimated resolution of the clock, in nanoseconds.
    pub resolution: u64,
}

/// Times one algorithm over a group of inputs that share a nominal size:
/// the sum of the per-repetition mean durations, under the size of the
/// first input of the group. The sum saturates at `u64::MAX`.
pub fn get_time_same_length<I: Input, A: AlgorithmRef<I>>(
    f: &A,
    inputs: &Vec<I>,
    relative_error: &Ratio,
    resolution: u64,
) -> (r: Result<Point, Error>)
    requires
        relative_error.wf(),
        inputs@.len() >= 1,
    ensures
        match r {
            Ok(p) => p.size == inputs@[0].size_spec(),
            Err(e) => e == Error::Timeout,
        },
{
    let mut total_time: u64 = 0;
    let size = inputs[0].get_size();
    let mut i: usize = 0;
    while i < inputs.len()
        invariant
            relative_error.wf(),
            i <= inputs@.len(),
        decreases inputs@.len() - i,
    {
        let time = match get_time(f, &inputs[i], relative_error, resolution) {
            Ok(time) => time,
            Err(e) => {
                return Err(e);
            },
        };
        total_time = if total_time <= 0xffff_ffff_ffff_ffff - time {
            total_time + time
        } else {
            0xffff_ffff_ffff_ffff
        };
        i = i + 1;
    }
    Ok(Point { size, time: total_time })
}

/// Times one mutating algorithm over a group of inputs that share a
/// nominal size, as [`get_time_same_length`] does.
pub fn get_time_same_length_mut<I: Input + Clone, A: AlgorithmMut<I>>(
    f: &A,
    inputs: &Vec<I>,
    relative_error: &Ratio,
    resolution: u64,
) -> (r: Result<Point, Error>)
    requires
        relative_error.wf(),
        inputs@.len() >= 1,
    ensures
        match r {
            Ok(p) => p.size == inputs@[0].size_spec(),
            Err(e) => e == Error::Timeout,
        },
{
    let mut total_time: u64 = 0;
    let size = inputs[0].get_size();
    let mut i: usize = 0;
    while i < inputs.len()
        invariant
            relative_error.wf(),
            i <= inputs@.len(),
        decreases inputs@.len() - i,
    {
        let time = match get_time_mut(f, &inputs[i], relative_error, resolution) {
            Ok(time) => time,
            Err(e) => {
                return Err(e);
            },
        };
        total_time = if total_time <= 0xffff_ffff_ffff_ffff - time {
            total_time + time
        } else {
            0xffff_ffff_ffff_ffff
        };
        i = i + 1;
    }
    Ok(Point { size, time: total_time })
}

/// Times one algorithm over every group of an [`InputSet`]: one
/// [`Point`] per group, in the order of the groups, under the name of
/// the algorithm.
pub fn get_times<I: Input, A: AlgorithmRef<I>>(
    f: &A,
    inputs: &InputSet<I>,
    relative_error: &Ratio,
    resolution: u64,
) -> (r: Result<Measurement, Error>)
    requires
        relative_error.wf(),
        inputs.wf(),
    ensures
        match r {
            Ok(m) => m.algorithm_name@ == f.name_spec() && m.measurement@.len()
                == inputs.inputs@.len() && forall|i: int|
                0 <= i < inputs.inputs@.len() ==> (#[trigger] m.measurement@[i]).size
                    == inputs.inputs@[i]@[0].size_spec(),
            Err(e) => e == Error::Timeout,
        },
{
    let n = inputs.inputs.len();
    let mut times: Vec<Point> = Vec::new();
    let mut i: usize = 0;
    while i < n
        invariant
            relative_error.wf(),
            inputs.wf(),
            n == inputs.inputs@.len(),
            i <= n,
            times@.len() == i,
            forall|j: int|
                0 <= j < i ==> (#[trigger] times@[j]).size == inputs.inputs@[j]@[0].size_spec(),
        decreases n - i,
    {
        let time = match get_time_same_length(f, &inputs.inputs[i], relative_error, resolution) {
            Ok(time) => time,
            Err(e) => {
                return Err(e);
            },
        };
        times.push(time);
        i = i + 1;
    }
    Ok(Measurement { algorithm_name: f.name(), measurement: times })
}

/// Times one mutating algorithm over every group of an [`InputSet`], as
/// [`get_times`] does.
pub fn get_times_mut<I: Input + Clone, A: AlgorithmMut<I>>(
    f: &A,
    inputs: &InputSet<I>,
    relative_error: &Ratio,
    resolution: u64,
) -> (r: Result<Measurement, Error>)
    requires
        relative_error.wf(),
        inputs.wf(),
    ensures
        match r {
            Ok(m) => m.algorithm_name@ == f.name_spec() && m.measurement@.len()
                == inputs.inputs@.len() && forall|i: int|
                0 <= i < inputs.inputs@.len() ==> (#[trigger] m.measurement@[i]).size
                    == inputs.inputs@[i]@[0].size_spec(),
            Err(e) => e == Error::Timeout,
        },
{
    let n = inputs.inputs.len();
    let mut times: Vec<Point> = Vec::new();
    let mut i: usize = 0;
    while i < n
        invariant
            relative_error.wf(),
            inputs.wf(),
            n == inputs.inputs@.len(),
            i <= n,
            times@.len() == i,
            forall|j: int|
                0 <= j < i ==> (#[trigger] times@[j]).size == inputs.inputs@[j]@[0].size_spec(),
        decreases n - i,
    {
        let time = match get_time_same_length_mut(
            f,
            &inputs.inputs[i],
            relative_error,
            resolution,
        ) {
            Ok(time) => time,
            Err(e) => {
                return Err(e);
            },
        };
        times.push(time);
        i = i + 1;
    }
    Ok(Measurement { algorithm_name: f.name(), measurement: times })
}

/// Measures every algorithm over every group of an [`InputSet`]: the
/// clock resolution is estimated once, then one [`Measurement`] is
/// produced per algorithm, wrapped with the shared relative error and
/// resolution. A non-positive relative error is rejected before any
/// timing occurs.
pub fn measure<I: Input, A: AlgorithmRef<I>>(
    inputs: &InputSet<I>,
    algorithms: &[A],
    relative_error: Ratio,
) -> (r: Result<Measurements, Error>)
    requires
        inputs.wf(),
    ensures
        !relative_error.wf() <==> r == Err::<Measurements, Error>(Error::InvalidArgument),
        match r {
            Ok(m) => m.relative_error == relative_error && m.resolution >= 1
                && m.measurements@.len() == algorithms@.len() && forall|j: int|
                0 <= j < algorithms@.len() ==> {
                    let series = #[trigger] m.measurements@[j];
                    series.algorithm_name@ == algorithms@[j].name_spec() && series.measurement@.len()
                        == inputs.inputs@.len() && forall|i: int|
                        0 <= i < inputs.inputs@.len() ==> (#[trigger] series.measurement@[i]).size
                            == inputs.inputs@[i]@[0].size_spec()
                },
            Err(e) => e == Error::InvalidArgument || e == Error::Timeout,
        },
{
    if relative_error.num == 0 || relative_error.den == 0 {
        return Err(Error::InvalidArgument);
    }
    let resolution = get_average_resolution();
    let mut results: Vec<Measurement> = Vec::new();
    let mut j: usize = 0;
    while j < algorithms.len()
        invariant
            relative_error.wf(),
            inputs.wf(),
            j <= algorithms@.len(),
            results@.len() == j,
            forall|t: int|
                0 <= t < j ==> {
                    let series = #[trigger] results@[t];
                    series.algorithm_name@ == algorithms@[t].name_spec() && series.measurement@.len()
                        == inputs.inputs@.len() && forall|i: int|
                        0 <= i < inputs.inputs@.len() ==> (#[trigger] series.measurement@[i]).size
                            == inputs.inputs@[i]@[0].size_spec()
                },
        decreases algorithms@.len() - j,
    {
        let measurement = match get_times(&algorithms[j], inputs, &relative_error, resolution) {
            Ok(measurement) => measurement,
            Err(e) => {
                return Err(e);
            },
        };
        results.push(measurement);
        j = j + 1;
    }
    Ok(Measurements { measurements: results, relative_error, resolution })
}

/// Measures every mutating algorithm over every group of an
/// [`InputSet`], as [`measure`] does; fresh clones are timed and
/// excluded so that only algorithm cost is reported.
pub fn measure_mut<I: Input + Clone, A: AlgorithmMut<I>>(
    inputs: &InputSet<I>,
    algorithms: &[A],
    relative_error: Ratio,
) -> (r: Result<Measurements, Error>)
    requires
        inputs.wf(),
    ensures
        !relative_error.wf() <==> r == Err::<Measurements, Error>(Error::InvalidArgument),
        match r {
            Ok(m) => m.relative_error == relative_error && m.resolution >= 1
                && m.measurements@.len() == algorithms@.len() && forall|j: int|
                0 <= j < algorithms@.len() ==> {
                    let series = #[trigger] m.measurements@[j];
                    series.algorithm_name@ == algorithms@[j].name_spec() && series.measurement@.len()
                        == inputs.inputs@.len() && forall|i: int|
                        0 <= i < inputs.inputs@.len() ==> (#[trigger] series.measurement@[i]).size
                            == inputs.inputs@[i]@[0].size_spec()
                },
            Err(e) => e == Error::InvalidArgument || e == Error::Timeout,
        },
{
    if relative_error.num == 0 || relative_error.den == 0 {
        return Err(Error::InvalidArgument);
    }
    let resolution = get_average_resolution();
    let mut results: Vec<Measurement> = Vec::new();
    let mut j: usize = 0;
    while j < algorithms.len()
        invariant
            relative_error.wf(),
            inputs.wf(),
            j <= algorithms@.len(),
            results@.len() == j,
            forall|t: int|
                0 <= t < j ==> {
                    let series = #[trigger] results@[t];
                    series.algorithm_name@ == algorithms@[t].name_spec() && series.measurement@.len()
                        == inputs.inputs@.len() && forall|i: int|
                        0 <= i < inputs.inputs@.len() ==> (#[trigger] series.measurement@[i]).size
                            == inputs.inputs@[i]@[0].size_spec()
                },
        decreases algorithms@.len() - j,
    {
        let measurement = match get_times_mut(&algorithms[j], inputs, &relative_error, resolution) {
            Ok(measurement) => measurement,
            Err(e) => {
                return Err(e);
            },
        };
        results.push(measurement);
        j = j + 1;
    }
    Ok(Measurements { measurements: results, relative_error, resolution })
}

/// A [`Point`] with its size and its time both mapped to the floor of
/// their base-two logarithm — the time first expressed in microseconds,
/// then rebuilt from microseconds. A zero size or time, whose logarithm
/// is undefined, maps to zero.
pub open spec fn log_point(p: Point) -> Point {
    Point {
        size: log2_floor(p.size as nat) as usize,
        time: (log2_floor((p.time / 1000) as nat) * 1000) as u64,
    }
}

/// The sum of the sizes of a series.
pub open spec fn sum_x(s: Seq<Point>) -> int
    decreases s.len(),
{
    if s.len() == 0 {
        0
    } else {
        sum_x(s.drop_last()) + s.last().size
    }
}

/// The time of a point in whole microseconds.
pub open spec fn point_micros(p: Point) -> int {
    (p.time / 1000) as int
}

/// The sum of the times of a series, in microseconds.
pub open spec fn sum_y(s: Seq<Point>) -> int
    decreases s.len(),
{
    if s.len() == 0 {
        0
    } else {
        sum_y(s.drop_last()) + point_micros(s.last())
    }
}

/// The sum of size-times-time over a series.
pub open spec fn sum_xy(s: Seq<Point>) -> int
    decreases s.len(),
{
    if s.len() == 0 {
        0
    } else {
        sum_xy(s.drop_last()) + s.last().size * point_micros(s.last())
    }
}

/// The sum of the squared sizes of a series.
pub open spec fn sum_xx(s: Seq<Point>) -> int
    decreases s.len(),
{
    if s.len() == 0 {
        0
    } else {
        sum_xx(s.drop_last()) + s.last().size * s.last().size
    }
}

impl Measurement {
    /// The largest time of the series.
    pub fn max_time(&self) -> (r: u64)
        requires
            self.measurement@.len() >= 1,
        ensures
            exists|i: int|
                0 <= i < self.measurement@.len() && r == (#[trigger] self.measurement@[i]).time,
            forall|i: int|
                0 <= i < self.measurement@.len() ==> (#[trigger] self.measurement@[i]).time <= r,
    {
        let mut best: u64 = self.measurement[0].time;
        let mut i: usize = 1;
        while i < self.measurement.len()
            invariant
                1 <= i <= self.measurement@.len(),
                exists|j: int| 0 <= j < i && best == (#[trigger] self.measurement@[j]).time,
                forall|j: int| 0 <= j < i ==> (#[trigger] self.measurement@[j]).time <= best,
            decreases self.measurement@.len() - i,
        {
            if self.measurement[i].time > best {
                best = self.measurement[i].time;
            }
            i = i + 1;
        }
        best
    }

    /// The smallest time of the series.
    pub fn min_time(&self) -> (r: u64)
        requires
            self.measurement@.len() >= 1,
        ensures
            exists|i: int|
                0 <= i < self.measurement@.len() && r == (#[trigger] self.measurement@[i]).time,
            forall|i: int|
                0 <= i < self.measurement@.len() ==> (#[trigger] self.measurement@[i]).time >= r,
    {
        let mut best: u64 = self.measurement[0].time;
        let mut i: usize = 1;
        while i < self.measurement.len()
            invariant
                1 <= i <= self.measurement@.len(),
                exists|j: int| 0 <= j < i && best == (#[trigger] self.measurement@[j]).time,
                forall|j: int| 0 <= j < i ==> (#[trigger] self.measurement@[j]).time >= best,
            decreases self.measurement@.len() - i,
        {
            if self.measurement[i].time < best {
                best = self.measurement[i].time;
            }
            i = i + 1;
        }
        best
    }

    /// The largest input size of the series.
    pub fn max_length(&self) -> (r: usize)
        requires
            self.measurement@.len() >= 1,
        ensures
            exists|i: int|
                0 <= i < self.measurement@.len() && r == (#[trigger] self.measurement@[i]).size,
            forall|i: int|
                0 <= i < self.measurement@.len() ==> (#[trigger] self.measurement@[i]).size <= r,
    {
        let mut best: usize = self.measurement[0].size;
        let mut i: usize = 1;
        while i < self.measurement.len()
            invariant
                1 <= i <= self.measurement@.len(),
                exists|j: int| 0 <= j < i && best == (#[trigger] self.measurement@[j]).size,
                forall|j: int| 0 <= j < i ==> (#[trigger] self.measurement@[j]).size <= best,
            decreases self.measurement@.len() - i,
        {
            if self.measurement[i].size > best {
                best = self.measurement[i].size;
            }
            i = i + 1;
        }
        best
    }

    /// The smallest input size of the series.
    pub fn min_length(&self) -> (r: usize)
        requires
            self.measurement@.len() >= 1,
        ensures
            exists|i: int|
                0 <= i < self.measurement@.len() && r == (#[trigger] self.measurement@[i]).size,
            forall|i: int|
                0 <= i < self.measurement@.len() ==> (#[trigger] self.measurement@[i]).size >= r,
    {
        let mut best: usize = self.measurement[0].size;
        let mut i: usize = 1;
        while i < self.measurement.len()
            invariant
                1 <= i <= self.measurement@.len(),
                exists|j: int| 0 <= j < i && best == (#[trigger] self.measurement@[j]).size,
                forall|j: int| 0 <= j < i ==> (#[trigger] self.measurement@[j]).size >= best,
            decreases self.measurement@.len() - i,
        {
            if self.measurement[i].size < best {
                best = self.measurement[i].size;
            }
            i = i + 1;
        }
        best
    }

    /// The ordinary-least-squares line through the `(size, microseconds)`
    /// pairs of the series, as exact rationals built from the standard
    /// closed-form sums: the slope is
    /// `(n·Σxy − Σx·Σy) / (n·Σxx − Σx·Σx)` and the intercept
    /// `(Σy − slope·Σx) / n` over the slope's denominator. When every
    /// size is equal the denominators vanish — the undefined value — and
    /// no division is performed. The bounds on the series keep every
    /// product within machine range.
    pub fn linear_regression(&self) -> (r: (Rational, Rational))
        requires
            self.measurement@.len() <= 4096,
            forall|i: int|
                0 <= i < self.measurement@.len() ==> (#[trigger] self.measurement@[i]).size
                    <= 0x100_0000 && self.measurement@[i].time <= 0xffff_ffff_ffff,
        ensures
            ({
                let s = self.measurement@;
                let n = s.len() as int;
                r.0.num == n * sum_xy(s) - sum_x(s) * sum_y(s) && r.0.den == n * sum_xx(s) - sum_x(
                    s,
                ) * sum_x(s) && r.1.num == sum_y(s) * r.0.den - r.0.num * sum_x(s) && r.1.den == n
                    * r.0.den
            }),
    {
        let ghost s = self.measurement@;
        let mut sx: i128 = 0;
        let mut sy: i128 = 0;
        let mut sxy: i128 = 0;
        let mut sxx: i128 = 0;
        let mut i: usize = 0;
        let n_usize = self.measurement.len();
        while i < n_usize
            invariant
                s == self.measurement@,
                n_usize == s.len(),
                s.len() <= 4096,
                forall|j: int|
                    0 <= j < s.len() ==> (#[trigger] s[j]).size <= 0x100_0000 && s[j].time
                        <= 0xffff_ffff_ffff,
                i <= n_usize,
                sx == sum_x(s.subrange(0, i as int)),
                sy == sum_y(s.subrange(0, i as int)),
                sxy == sum_xy(s.subrange(0, i as int)),
                sxx == sum_xx(s.subrange(0, i as int)),
                0 <= sx <= i * 0x100_0000,
                0 <= sy <= i * 0x80_0000_0000,
                0 <= sxy <= i * 0x8000_0000_0000_0000,
                0 <= sxx <= i * 0x1_0000_0000_0000,
            decreases n_usize - i,
        {
            let p = self.measurement[i];
            let x: i128 = p.size as i128;
            let y: i128 = (p.time / 1000) as i128;
            proof {
                let pre = s.subrange(0, i as int);
                let post = s.subrange(0, i as int + 1);
                assert(post.drop_last() =~= pre);
                assert(post.last() == s[i as int]);
                assert(x * y <= 0x8000_0000_0000_0000 && x * x <= 0x1_0000_0000_0000 && 0 <= x * y
                    && 0 <= x * x) by (nonlinear_arith)
                    requires
                        0 <= x <= 0x100_0000,
                        0 <= y <= 0x80_0000_0000,
                {}
                assert((i as int + 1) * 0x100_0000 == i as int * 0x100_0000 + 0x100_0000
                    && (i as int + 1) * 0x80_0000_0000 == i as int * 0x80_0000_0000 + 0x80_0000_0000
                    && (i as int + 1) * 0x8000_0000_0000_0000 == i as int * 0x8000_0000_0000_0000
                    + 0x8000_0000_0000_0000 && (i as int + 1) * 0x1_0000_0000_0000 == i as int
                    * 0x1_0000_0000_0000 + 0x1_0000_0000_0000) by (nonlinear_arith) {}
            }
            sx = sx + x;
            sy = sy + y;
            sxy = sxy + x * y;
            sxx = sxx + x * x;
            i = i + 1;
        }
        proof {
            assert(s.subrange(0, s.len() as int) =~= s);
            let n = n_usize as int;
            // Bounds of the closed-form products, so that nothing
            // overflows a signed 128-bit value: the sums stay below
            // 2^36, 2^51, 2^75 and 2^60, so the slope terms stay below
            // 2^88 and 2^73.
            assert(0 <= sx * sx < 0x2000000000000000000 && 0 <= sx * sy < 0x10000000000000000000000
                && 0 <= n * sxy <= 0x10000000000000000000000 && 0 <= n * sxx
                < 0x2000000000000000000) by (nonlinear_arith)
                requires
                    0 <= n <= 4096,
                    0 <= sx <= 0x1000000000,
                    0 <= sy <= 0x8000000000000,
                    0 <= sxy <= 0x8000000000000000000,
                    0 <= sxx <= 0x1000000000000000,
            {}
        }
        let n: i128 = n_usize as i128;
        let slope_num: i128 = n * sxy - sx * sy;
        let slope_den: i128 = n * sxx - sx * sx;
        proof {
            // The intercept terms stay below 2^125.
            assert(-0x20000000000000000000000000000000 < sy * slope_den
                < 0x20000000000000000000000000000000 && -0x20000000000000000000000000000000
                < slope_num * sx < 0x20000000000000000000000000000000
                && -0x20000000000000000000000000000000 < n * slope_den
                < 0x20000000000000000000000000000000) by (nonlinear_arith)
                requires
                    0 <= n <= 4096,
                    0 <= sx <= 0x1000000000,
                    0 <= sy <= 0x8000000000000,
                    -0x20000000000000000000000 < slope_num < 0x20000000000000000000000,
                    -0x2000000000000000000 < slope_den < 0x2000000000000000000,
            {}
        }
        let inter_num: i128 = sy * slope_den - slope_num * sx;
        let inter_den: i128 = n * slope_den;
        (Rational { num: slope_num, den: slope_den }, Rational { num: inter_num, den: inter_den })
    }

    /// Returns a new [`Measurement`] in which the size and the time of
    /// every [`Point`] are the floor of the base-two logarithm of the
    /// original ones, the time taken in and rebuilt from microseconds.
    pub fn log_log_scale(&self) -> (r: Measurement)
        ensures
            r.algorithm_name@ == self.algorithm_name@,
            r.measurement@.len() == self.measurement@.len(),
            forall|i: int|
                0 <= i < self.measurement@.len() ==> r.measurement@[i] == log_point(
                    #[trigger] self.measurement@[i],
                ),
    {
        let mut points: Vec<Point> = Vec::new();
        let mut i: usize = 0;
        while i < self.measurement.len()
            invariant
                i <= self.measurement@.len(),
                points@.len() == i,
                forall|j: int|
                    0 <= j < i ==> points@[j] == log_point(#[trigger] self.measurement@[j]),
            decreases self.measurement@.len() - i,
        {
            let p = self.measurement[i];
            let size = floor_log2(p.size as u64) as usize;
            let time = floor_log2(p.time / 1000) * 1000;
            points.push(Point { size, time });
            i = i + 1;
        }
        Measurement { algorithm_name: self.algorithm_name.clone(), measurement: points }
    }
}

impl Measurements {
    /// Every series holds at least one point.
    pub open spec fn series_wf(&self) -> bool {
        forall|j: int|
            0 <= j < self.measurements@.len() ==> (
            #[trigger] self.measurements@[j]).measurement@.len() >= 1
    }

    /// The largest time over all series.
    pub fn max_time(&self) -> (r: u64)
        requires
            self.measurements@.len() >= 1,
            self.series_wf(),
        ensures
            exists|j: int, i: int|
                0 <= j < self.measurements@.len() && 0 <= i
                    < self.measurements@[j].measurement@.len() && r == (
                #[trigger] self.measurements@[j].measurement@[i]).time,
            forall|j: int, i: int|
                0 <= j < self.measurements@.len() && 0 <= i
                    < self.measurements@[j].measurement@.len() ==> (
                #[trigger] self.measurements@[j].measurement@[i]).time <= r,
    {
        let mut best: u64 = self.measurements[0].max_time();
        let mut j: usize = 1;
        while j < self.measurements.len()
            invariant
                self.series_wf(),
                1 <= j <= self.measurements@.len(),
                exists|t: int, i: int|
                    0 <= t < j && 0 <= i < self.measurements@[t].measurement@.len() && best == (
                    #[trigger] self.measurements@[t].measurement@[i]).time,
                forall|t: int, i: int|
                    0 <= t < j && 0 <= i < self.measurements@[t].measurement@.len() ==> (
                    #[trigger] self.measurements@[t].measurement@[i]).time <= best,
            decreases self.measurements@.len() - j,
        {
            let candidate = self.measurements[j].max_time();
            if candidate > best {
                best = candidate;
            }
            j = j + 1;
        }
        best
    }

    /// The smallest time over all series.
    pub fn min_time(&self) -> (r: u64)
        requires
            self.measurements@.len() >= 1,
            self.series_wf(),
        ensures
            exists|j: int, i: int|
                0 <= j < self.measurements@.len() && 0 <= i
                    < self.measurements@[j].measurement@.len() && r == (
                #[trigger] self.measurements@[j].measurement@[i]).time,
            forall|j: int, i: int|
                0 <= j < self.measurements@.len() && 0 <= i
                    < self.measurements@[j].measurement@.len() ==> (
                #[trigger] self.measurements@[j].measurement@[i]).time >= r,
    {
        let mut best: u64 = self.measurements[0].min_time();
        let mut j: usize = 1;
        while j < self.measurements.len()
            invariant
                self.series_wf(),
                1 <= j <= self.measurements@.len(),
                exists|t: int, i: int|
                    0 <= t < j && 0 <= i < self.measurements@[t].measurement@.len() && best == (
                    #[trigger] self.measurements@[t].measurement@[i]).time,
                forall|t: int, i: int|
                    0 <= t < j && 0 <= i < self.measurements@[t].measurement@.len() ==> (
                    #[trigger] self.measurements@[t].measurement@[i]).time >= best,
            decreases self.measurements@.len() - j,
        {
            let candidate = self.measurements[j].min_time();
            if candidate < best {
                best = candidate;
            }
            j = j + 1;
        }
        best
    }

    /// The largest input size over all series.
    pub fn max_length(&self) -> (r: usize)
        requires
            self.measurements@.len() >= 1,
            self.series_wf(),
        ensures
            exists|j: int, i: int|
                0 <= j < self.measurements@.len() && 0 <= i
                    < self.measurements@[j].measurement@.len() && r == (
                #[trigger] self.measurements@[j].measurement@[i]).size,
            forall|j: int, i: int|
                0 <= j < self.measurements@.len() && 0 <= i
                    < self.measurements@[j].measurement@.len() ==> (
                #[trigger] self.measurements@[j].measurement@[i]).size <= r,
    {
        let mut best: usize = self.measurements[0].max_length();
        let mut j: usize = 1;
        while j < self.measurements.len()
            invariant
                self.series_wf(),
                1 <= j <= self.measurements@.len(),
                exists|t: int, i: int|
                    0 <= t < j && 0 <= i < self.measurements@[t].measurement@.len() && best == (
                    #[trigger] self.measurements@[t].measurement@[i]).size,
                forall|t: int, i: int|
                    0 <= t < j && 0 <= i < self.measurements@[t].measurement@.len() ==> (
                    #[trigger] self.measurements@[t].measurement@[i]).size <= best,
            decreases self.measurements@.len() - j,
        {
            let candidate = self.measurements[j].max_length();
            if candidate > best {
                best = candidate;
            }
            j = j + 1;
        }
        best
    }

    /// The smallest input size over all series.
    pub fn min_length(&self) -> (r: usize)
        requires
            self.measurements@.len() >= 1,
            self.series_wf(),
        ensures
            exists|j: int, i: int|
                0 <= j < self.measurements@.len() && 0 <= i
                    < self.measurements@[j].measurement@.len() && r == (
                #[trigger] self.measurements@[j].measurement@[i]).size,
            forall|j: int, i: int|
                0 <= j < self.measurements@.len() && 0 <= i
                    < self.measurements@[j].measurement@.len() ==> (
                #[trigger] self.measurements@[j].measurement@[i]).size >= r,
    {
        let mut best: usize = self.measurements[0].min_length();
        let mut j: usize = 1;
        while j < self.measurements.len()
            invariant
                self.series_wf(),
                1 <= j <= self.measurements@.len(),
                exists|t: int, i: int|
                    0 <= t < j && 0 <= i < self.measurements@[t].measurement@.len() && best == (
                    #[trigger] self.measurements@[t].measurement@[i]).size,
                forall|t: int, i: int|
                    0 <= t < j && 0 <= i < self.measurements@[t].measurement@.len() ==> (
                    #[trigger] self.measurements@[t].measurement@[i]).size >= best,
            decreases self.measurements@.len() - j,
        {
            let candidate = self.measurements[j].min_length();
            if candidate < best {
                best = candidate;
            }
            j = j + 1;
        }
        best
    }

    /// Returns a new [`Measurements`] in which every series is rescaled
    /// by [`Measurement::log_log_scale`]; the shared metadata is kept.
    pub fn log_log_scale(&self) -> (r: Measurements)
        ensures
            r.relative_error == self.relative_error,
            r.resolution == self.resolution,
            r.measurements@.len() == self.measurements@.len(),
            forall|j: int|
                0 <= j < self.measurements@.len() ==> {
                    let from = #[trigger] self.measurements@[j];
                    let to = r.measurements@[j];
                    to.algorithm_name@ == from.algorithm_name@ && to.measurement@.len()
                        == from.measurement@.len() && forall|i: int|
                        0 <= i < from.measurement@.len() ==> to.measurement@[i] == log_point(
                            #[trigger] from.measurement@[i],
                        )
                },
    {
        let mut series: Vec<Measurement> = Vec::new();
        let mut j: usize = 0;
        while j < self.measurements.len()
            invariant
                j <= self.measurements@.len(),
                series@.len() == j,
                forall|t: int|
                    0 <= t < j ==> {
                        let from = #[trigger] self.measurements@[t];
                        let to = series@[t];
                        to.algorithm_name@ == from.algorithm_name@ && to.measurement@.len()
                            == from.measurement@.len() && forall|i: int|
                            0 <= i < from.measurement@.len() ==> to.measurement@[i] == log_point(
                                #[trigger] from.measurement@[i],
                            )
                    },
            decreases self.measurements@.len() - j,
        {
            let scaled = self.measurements[j].log_log_scale();
            series.push(scaled);
            j = j + 1;
        }
        Measurements {
            measurements: series,
            relative_error: self.relative_error,
            resolution: self.resolution,
        }
    }
}

/// Ordinary least squares recovers an exact linear relation. On a series
/// whose times in microseconds satisfy `micros == a·size + b` exactly,
/// the closed-form sums obey `Σy == a·Σx + b·n` and
/// `Σxy == a·Σxx + b·Σx`; hence the slope numerator equals `a` times the
/// slope denominator, and the intercept numerator equals `b` times the
/// intercept denominator — the rationals are exactly `a` and `b`
/// whenever the denominator does not vanish (it vanishes only when every
/// size is equal).
pub proof fn lemma_regression_recovers_line(s: Seq<Point>, a: int, b: int)
    requires
        forall|i: int|
            0 <= i < s.len() ==> point_micros(#[trigger] s[i]) == a * s[i].size + b,
    ensures
        sum_y(s) == a * sum_x(s) + b * s.len(),
        sum_xy(s) == a * sum_xx(s) + b * sum_x(s),
        ({
            let n = s.len() as int;
            let slope_num = n * sum_xy(s) - sum_x(s) * sum_y(s);
            let slope_den = n * sum_xx(s) - sum_x(s) * sum_x(s);
            slope_num == a * slope_den && sum_y(s) * slope_den - slope_num * sum_x(s) == b * (n
                * slope_den)
        }),
    decreases s.len(),
{
    if s.len() == 0 {
    } else {
        let pre = s.drop_last();
        assert(forall|i: int|
            0 <= i < pre.len() ==> point_micros(#[trigger] pre[i]) == a * pre[i].size + b);
        lemma_regression_recovers_line(pre, a, b);
        let p = s.last();
        assert(point_micros(p) == a * p.size + b);
        let n = s.len() as int;
        let x = p.size as int;
        assert(sum_y(s) == a * sum_x(s) + b * n) by (nonlinear_arith)
            requires
                sum_y(s) == sum_y(pre) + a * x + b,
                sum_x(s) == sum_x(pre) + x,
                sum_y(pre) == a * sum_x(pre) + b * (n - 1),
        {}
        assert(sum_xy(s) == sum_xy(pre) + x * (a * x + b));
        assert(sum_xy(s) == a * sum_xx(s) + b * sum_x(s)) by (nonlinear_arith)
            requires
                sum_xy(s) == sum_xy(pre) + x * (a * x + b),
                sum_xx(s) == sum_xx(pre) + x * x,
                sum_x(s) == sum_x(pre) + x,
                sum_xy(pre) == a * sum_xx(pre) + b * sum_x(pre),
        {}
    }
    let n = s.len() as int;
    let slope_num = n * sum_xy(s) - sum_x(s) * sum_y(s);
    let slope_den = n * sum_xx(s) - sum_x(s) * sum_x(s);
    assert(slope_num == a * slope_den) by (nonlinear_arith)
        requires
            slope_num == n * sum_xy(s) - sum_x(s) * sum_y(s),
            slope_den == n * sum_xx(s) - sum_x(s) * sum_x(s),
            sum_y(s) == a * sum_x(s) + b * n,
            sum_xy(s) == a * sum_xx(s) + b * sum_x(s),
    {}
    assert(sum_y(s) * slope_den - (a * slope_den) * sum_x(s) == b * (n * slope_den))
        by (nonlinear_arith)
        requires
            sum_y(s) == a * sum_x(s) + b * n,
    {}
}

} // verus!
