//! The controller's decisions: the run's parameters, how many ticks it
//! samples, and what one tick turns the probes' counts into.

use vstd::prelude::*;
use crate::calibration::{store_view, stored_baseline, CalibrationError};
use crate::decimal::{decoded, lemma_decode_spelled, parse_i64, spelled};

verus! {

/// How a measurement run reads the probes' throughput.
#[derive(Clone, Copy, Debug, PartialEq, Eq, Structural)]
pub enum RunMode {
    /// A deficit against the baseline is load from other applications.
    AppUtilization,
    /// The ratio to the baseline is the performance still available.
    SysPerformance,
}

impl RunMode {
    pub open spec fn spec_from_code(code: int) -> RunMode {
        if code == 1 {
            RunMode::SysPerformance
        } else {
            RunMode::AppUtilization
        }
    }

    /// The mode that a numeric code selects: `1` for system performance,
    /// any other value for application utilization.
    pub fn from_code(code: i32) -> (r: RunMode)
        ensures
            r == Self::spec_from_code(code as int),
    {
        if code == 1 {
            RunMode::SysPerformance
        } else {
            RunMode::AppUtilization
        }
    }
}

/// The configuration of one run.
#[derive(Clone, Copy, Debug, PartialEq, Eq, Structural)]
pub struct Parameter {
    /// Sample once and store the result as the new baseline.
    pub calibrating: bool,
    /// Sample once, then stop.
    pub step_mode: bool,
    pub run_mode: RunMode,
    /// Seconds between two ticks.
    pub interval: i32,
}

/// Which command-line value was not acceptable.
#[derive(Clone, Copy, Debug, PartialEq, Eq, Structural)]
pub enum ParameterError {
    /// The mode is not a decimal `i32`.
    Mode,
    /// The interval is not a decimal `i32` of at least one second.
    Interval,
}

/// The `i32` that `text` spells, if it spells one.
pub open spec fn i32_value(text: Seq<u8>) -> Option<i32> {
    match decoded(text) {
        Some(v) => if i32::MIN <= v <= i32::MAX {
            Some(v as i32)
        } else {
            None
        },
        None => None,
    }
}

fn parse_i32(text: &[u8]) -> (r: Option<i32>)
    ensures
        r == i32_value(text@),
{
    match parse_i64(text) {
        Some(v) => if i32::MIN as i64 <= v && v <= i32::MAX as i64 {
            Some(v as i32)
        } else {
            None
        },
        None => None,
    }
}

impl Parameter {
    /// An interval of at least one second.
    pub open spec fn wf(&self) -> bool {
        self.interval >= 1
    }

    pub open spec fn spec_from_flags(calibrate: bool, step: bool, mode: Seq<u8>, interval: Seq<u8>) -> Result<
        Parameter,
        ParameterError,
    > {
        match i32_value(mode) {
            None => Err(ParameterError::Mode),
            Some(m) => match i32_value(interval) {
                Some(i) => if i >= 1 {
                    Ok(
                        Parameter {
                            calibrating: calibrate,
                            step_mode: step,
                            run_mode: RunMode::spec_from_code(m as int),
                            interval: i,
                        },
                    )
                } else {
                    Err(ParameterError::Interval)
                },
                None => Err(ParameterError::Interval),
            },
        }
    }

    /// The parameters that the command-line flags and the text of the mode
    /// and interval values select.
    pub fn from_flags(calibrate: bool, step: bool, mode: &[u8], interval: &[u8]) -> (r: Result<
        Parameter,
        ParameterError,
    >)
        ensures
            r == Self::spec_from_flags(calibrate, step, mode@, interval@),
            r is Ok ==> r->Ok_0.wf(),
    {
        let m = match parse_i32(mode) {
            Some(m) => m,
            None => {
                return Err(ParameterError::Mode);
            },
        };
        match parse_i32(interval) {
            Some(i) => if i >= 1 {
                Ok(
                    Parameter {
                        calibrating: calibrate,
                        step_mode: step,
                        run_mode: RunMode::from_code(m),
                        interval: i,
                    },
                )
            } else {
                Err(ParameterError::Interval)
            },
            None => Err(ParameterError::Interval),
        }
    }

    /// A run that calibrates or steps samples once and then stops its
    /// probes; any other run samples without end.
    pub open spec fn samples_once(&self) -> bool {
        self.calibrating || self.step_mode
    }

    /// The number of ticks to sample: `None` for no limit.
    pub fn tick_limit(&self) -> (r: Option<u64>)
        ensures
            r == if self.samples_once() {
                Some(1u64)
            } else {
                None
            },
    {
        if self.calibrating || self.step_mode {
            Some(1)
        } else {
            None
        }
    }

    /// Whether the controller sends a stop message to every probe once its
    /// ticks are done.
    pub fn signals_stop(&self) -> (r: bool)
        ensures
            r == self.samples_once(),
    {
        self.calibrating || self.step_mode
    }
}

/// Counts the ticks of a run against its limit.
pub struct Schedule {
    limit: Option<u64>,
    taken: u64,
}

impl Schedule {
    pub closed spec fn limit(&self) -> Option<u64> {
        self.limit
    }

    /// Ticks taken so far (it stops growing at `u64::MAX` in a run without
    /// limit).
    pub closed spec fn taken(&self) -> nat {
        self.taken as nat
    }

    pub closed spec fn wf(&self) -> bool {
        match self.limit {
            Some(n) => self.taken <= n,
            None => true,
        }
    }

    /// No tick is left.
    pub open spec fn finished(&self) -> bool {
        match self.limit() {
            Some(n) => self.taken() >= n,
            None => false,
        }
    }

    /// A schedule of at most `limit` ticks, or of endless ticks for `None`.
    pub fn new(limit: Option<u64>) -> (r: Schedule)
        ensures
            r.wf(),
            r.limit() == limit,
            r.taken() == 0,
    {
        Schedule { limit, taken: 0 }
    }

    /// Whether another tick is to be sampled; it is counted when it is.
    pub fn next_tick(&mut self) -> (r: bool)
        requires
            old(self).wf(),
        ensures
            final(self).wf(),
            r == !old(self).finished(),
            final(self).limit() == old(self).limit(),
            final(self).taken() == if r && old(self).taken() < u64::MAX {
                old(self).taken() + 1
            } else {
                old(self).taken()
            },
    {
        let go = match self.limit {
            Some(n) => self.taken < n,
            None => true,
        };
        if go && self.taken < u64::MAX {
            self.taken = self.taken + 1;
        }
        go
    }
}

/// Integer division that rounds toward zero, as Rust's `/` does.
pub open spec fn div_trunc(a: int, d: int) -> int {
    if a >= 0 {
        a / d
    } else {
        -((-a) / d)
    }
}

/// A Sample: each probe's count per second of the interval, in the order of
/// the probes.
pub open spec fn sample_of(counts: Seq<i64>, interval: int) -> Seq<i64> {
    Seq::new(counts.len(), |i: int| div_trunc(counts[i] as int, interval) as i64)
}

/// Divides every count by the interval in seconds, keeping length and order.
pub fn normalize(counts: &Vec<i64>, interval: i32) -> (r: Vec<i64>)
    requires
        interval >= 1,
    ensures
        r@ == sample_of(counts@, interval as int),
{
    let d = interval as i64;
    let mut r: Vec<i64> = Vec::with_capacity(counts.len());
    let mut i: usize = 0;
    while i < counts.len()
        invariant
            i <= counts@.len(),
            d == interval,
            d >= 1,
            r@ =~= sample_of(counts@, interval as int).take(i as int),
        decreases counts@.len() - i,
    {
        let c = counts[i];
        let q: i64 = if c >= 0 {
            c / d
        } else {
            let m: i128 = -(c as i128);
            (-(m / (d as i128))) as i64
        };
        r.push(q);
        i = i + 1;
    }
    proof {
        assert(sample_of(counts@, interval as int).take(i as int) =~= sample_of(counts@, interval as int));
    }
    r
}

pub open spec fn sum_of(s: Seq<i64>) -> int
    decreases s.len(),
{
    if s.len() == 0 {
        0
    } else {
        sum_of(s.drop_last()) + s.last()
    }
}

pub open spec fn fits_i64(v: int) -> bool {
    i64::MIN <= v <= i64::MAX
}

/// The Aggregate Score of a Sample, its sum: `None` when the sum does not fit
/// in `i64`.
pub fn aggregate_score(sample: &Vec<i64>) -> (r: Option<i64>)
    ensures
        r == if fits_i64(sum_of(sample@)) {
            Some(sum_of(sample@) as i64)
        } else {
            None
        },
{
    let n = sample.len();
    let mut acc: i128 = 0;
    let mut i: usize = 0;
    while i < n
        invariant
            n == sample@.len(),
            i <= n,
            acc == sum_of(sample@.take(i as int)),
            -(i as int) * 0x8000_0000_0000_0000 <= acc <= (i as int) * 0x8000_0000_0000_0000,
        decreases n - i,
    {
        proof {
            assert(sample@.take(i + 1).drop_last() =~= sample@.take(i as int));
        }
        acc = acc + sample[i] as i128;
        i = i + 1;
    }
    proof {
        assert(sample@.take(n as int) =~= sample@);
    }
    if i64::MIN as i128 <= acc && acc <= i64::MAX as i128 {
        Some(acc as i64)
    } else {
        None
    }
}

/// A percentage held exactly, as `numerator / denominator`.
#[derive(Clone, Copy, Debug, PartialEq, Eq, Structural)]
pub struct Percentage {
    pub numerator: i128,
    pub denominator: i64,
}

/// Load: `(baseline - total) / baseline * 100`.
pub open spec fn spec_utilization(baseline: i64, total: i64) -> Percentage {
    Percentage { numerator: (100 * (baseline - total)) as i128, denominator: baseline }
}

/// Performance still available: `total / baseline * 100`.
pub open spec fn spec_performance(baseline: i64, total: i64) -> Percentage {
    Percentage { numerator: (100 * total) as i128, denominator: baseline }
}

/// The share of the baseline's throughput that other work takes.
pub fn utilization(baseline: i64, total: i64) -> (r: Percentage)
    ensures
        r == spec_utilization(baseline, total),
{
    Percentage { numerator: 100 * (baseline as i128 - total as i128), denominator: baseline }
}

/// The share of the baseline's throughput that the probes still reach.
pub fn performance(baseline: i64, total: i64) -> (r: Percentage)
    ensures
        r == spec_performance(baseline, total),
{
    Percentage { numerator: 100 * total as i128, denominator: baseline }
}

/// What one tick reports.
#[derive(Clone, Copy, Debug, PartialEq, Eq, Structural)]
pub enum Report {
    /// The Aggregate Score is the new baseline and is to be stored.
    Calibrated { total: i64 },
    /// The Aggregate Score, with the load it shows against the baseline.
    Utilization { total: i64, percent: Percentage },
    /// The Aggregate Score, with the performance it shows against the baseline.
    Performance { total: i64, percent: Percentage },
}

impl Report {
    /// The baseline to write to the store after this tick, if any.
    pub fn baseline_to_save(&self) -> (r: Option<i64>)
        ensures
            r == match *self {
                Report::Calibrated { total } => Some(total),
                _ => None,
            },
    {
        match *self {
            Report::Calibrated { total } => Some(total),
            _ => None,
        }
    }
}

/// Why a tick produced no report; either ends the run.
#[derive(Clone, Copy, Debug, PartialEq, Eq, Structural)]
pub enum TickError {
    /// The Aggregate Score does not fit in `i64`.
    ScoreOverflow,
    /// The store exists but holds no integer.
    CorruptCalibration,
}

/// What a tick with this Sample reports, given the store's bytes (`None`
/// when the store does not exist; never read when calibrating).
pub open spec fn spec_evaluate(param: Parameter, sample: Seq<i64>, stored: Option<Seq<u8>>) -> Result<
    Report,
    TickError,
> {
    let sum = sum_of(sample);
    let total = sum as i64;
    if !fits_i64(sum) {
        Err(TickError::ScoreOverflow)
    } else if param.calibrating {
        Ok(Report::Calibrated { total })
    } else {
        match stored_baseline(stored) {
            Err(CalibrationError::NotCalibrated) => Ok(Report::Calibrated { total }),
            Err(CalibrationError::Corrupt) => Err(TickError::CorruptCalibration),
            Ok(b) => match param.run_mode {
                RunMode::AppUtilization => Ok(
                    Report::Utilization { total, percent: spec_utilization(b, total) },
                ),
                RunMode::SysPerformance => Ok(
                    Report::Performance { total, percent: spec_performance(b, total) },
                ),
            },
        }
    }
}

/// The body of a tick: sums the Sample and, unless calibrating, compares the
/// sum with the stored baseline. A missing store makes the tick a calibration.
pub fn evaluate(param: &Parameter, sample: &Vec<i64>, stored: Option<&[u8]>) -> (r: Result<
    Report,
    TickError,
>)
    ensures
        r == spec_evaluate(*param, sample@, store_view(stored)),
{
    let total = match aggregate_score(sample) {
        Some(t) => t,
        None => {
            return Err(TickError::ScoreOverflow);
        },
    };
    if param.calibrating {
        return Ok(Report::Calibrated { total });
    }
    match crate::calibration::load_baseline(stored) {
        Err(CalibrationError::NotCalibrated) => Ok(Report::Calibrated { total }),
        Err(CalibrationError::Corrupt) => Err(TickError::CorruptCalibration),
        Ok(b) => match param.run_mode {
            RunMode::AppUtilization => Ok(
                Report::Utilization { total, percent: utilization(b, total) },
            ),
            RunMode::SysPerformance => Ok(
                Report::Performance { total, percent: performance(b, total) },
            ),
        },
    }
}

proof fn lemma_sum_uniform(s: Seq<i64>, k: int)
    requires
        forall|i: int| 0 <= i < s.len() ==> s[i] == k,
    ensures
        sum_of(s) == k * s.len(),
    decreases s.len(),
{
    if s.len() > 0 {
        lemma_sum_uniform(s.drop_last(), k);
        assert(k * s.len() == k * (s.len() - 1) + k) by (nonlinear_arith);
    }
}

/// Every probe's count has an entry in the Sample, at the probe's own index.
pub proof fn lemma_sample_shape(counts: Seq<i64>, interval: int)
    requires
        interval >= 1,
    ensures
        sample_of(counts, interval).len() == counts.len(),
        forall|i: int|
            0 <= i < counts.len() ==> #[trigger] sample_of(counts, interval)[i] == div_trunc(
                counts[i] as int,
                interval,
            ),
{
}

/// Calibrating is idempotent: when each probe completes `k` units in every
/// second of the interval, a calibrating tick reports `k` times the number of
/// probes as the baseline to store, whatever the store held before.
pub proof fn lemma_calibration_idempotent(
    param: Parameter,
    counts: Seq<i64>,
    k: int,
    before: Option<Seq<u8>>,
    after: Option<Seq<u8>>,
)
    requires
        param.wf(),
        param.calibrating,
        0 <= k,
        k * counts.len() <= i64::MAX,
        forall|i: int| 0 <= i < counts.len() ==> counts[i] == k * param.interval,
    ensures
        spec_evaluate(param, sample_of(counts, param.interval as int), before) == Ok::<
            Report,
            TickError,
        >(Report::Calibrated { total: (k * counts.len()) as i64 }),
        spec_evaluate(param, sample_of(counts, param.interval as int), after) == spec_evaluate(
            param,
            sample_of(counts, param.interval as int),
            before,
        ),
{
    let d = param.interval as int;
    let s = sample_of(counts, d);
    assert forall|i: int| 0 <= i < s.len() implies s[i] == k by {
        assert((k * d) / d == k) by (nonlinear_arith)
            requires
                d >= 1,
                k >= 0,
        ;
        assert(k * d >= 0) by (nonlinear_arith)
            requires
                d >= 1,
                k >= 0,
        ;
    }
    lemma_sum_uniform(s, k);
    assert(k * counts.len() >= 0) by (nonlinear_arith)
        requires
            k >= 0,
    ;
}

/// A measurement run that finds no store calibrates instead: it reports its
/// own Aggregate Score as the baseline to store, and no percentage.
pub proof fn lemma_missing_baseline_bootstrap(param: Parameter, sample: Seq<i64>)
    requires
        !param.calibrating,
        fits_i64(sum_of(sample)),
    ensures
        spec_evaluate(param, sample, None) == Ok::<Report, TickError>(
            Report::Calibrated { total: sum_of(sample) as i64 },
        ),
{
}

/// Against a stored baseline `b`, a run measuring application utilization
/// reports `(b - total) / b * 100`, with `total` the Sample's sum.
pub proof fn lemma_utilization_against_baseline(param: Parameter, sample: Seq<i64>, b: i64)
    requires
        !param.calibrating,
        param.run_mode == RunMode::AppUtilization,
        fits_i64(sum_of(sample)),
    ensures
        spec_evaluate(param, sample, Some(spelled(b as int))) == Ok::<Report, TickError>(
            Report::Utilization {
                total: sum_of(sample) as i64,
                percent: Percentage {
                    numerator: (100 * (b - sum_of(sample))) as i128,
                    denominator: b,
                },
            },
        ),
{
    lemma_decode_spelled(b);
}

/// Against a stored baseline `b`, a run measuring system performance
/// reports `total / b * 100`, with `total` the Sample's sum.
pub proof fn lemma_performance_against_baseline(param: Parameter, sample: Seq<i64>, b: i64)
    requires
        !param.calibrating,
        param.run_mode == RunMode::SysPerformance,
        fits_i64(sum_of(sample)),
    ensures
        spec_evaluate(param, sample, Some(spelled(b as int))) == Ok::<Report, TickError>(
            Report::Performance {
                total: sum_of(sample) as i64,
                percent: Percentage { numerator: (100 * sum_of(sample)) as i128, denominator: b },
            },
        ),
{
    lemma_decode_spelled(b);
}

/// A store that exists but holds no integer ends a measurement run with
/// `CorruptCalibration`, never with a percentage.
pub proof fn lemma_corrupt_store_rejected(param: Parameter, sample: Seq<i64>, text: Seq<u8>)
    requires
        !param.calibrating,
        fits_i64(sum_of(sample)),
        decoded(text) is None,
    ensures
        spec_evaluate(param, sample, Some(text)) == Err::<Report, TickError>(
            TickError::CorruptCalibration,
        ),
{
}

} // verus!
