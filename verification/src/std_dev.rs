//! Standard Deviation.
//!
//! A rolling dispersion measure over a window of values, with the variance
//! taken by the computational formula — the mean of squares minus the square
//! of the mean, clamped at zero — a sample correction of `n / (n - 1)` when
//! configured, and the integer square root of the result as the standard
//! deviation. Values are caller-scaled integers, so the variance carries
//! squared value units; z-scores and coefficients of variation are in
//! `SCALE` fixed point.

use vstd::prelude::*;
use std::collections::VecDeque;

use crate::common::{
    valid_price, valid_period, div_nonneg, seq_sum, lemma_seq_sum_extend, lemma_seq_sum_bounds,
    lemma_seq_sum_pop_front, lemma_div_nonneg_bound, spec_isqrt, lemma_isqrt_bounds, isqrt_i128,
    spec_squares, seq_sq_dev_sum, lemma_seq_sq_dev_sum_extend, lemma_seq_sq_dev_sum_bounds,
    PRICE_MAX, PERIOD_MAX, HUNDRED, SCALE,
};

verus! {

/// Configuration for Standard Deviation calculation.
#[derive(Debug, Clone, Copy, PartialEq, Eq, Structural)]
pub struct StandardDeviationConfig {
    /// Rolling-window length.
    pub period: usize,
    /// Whether to apply the sample correction `n / (n - 1)`.
    pub use_sample: bool,
}

/// Coefficient-of-variation bound below which volatility is very low: 5.
pub const CV_VERY_LOW: i64 = 5_000_000;

/// Coefficient-of-variation bound below which volatility is low: 15.
pub const CV_LOW: i64 = 15_000_000;

/// Coefficient-of-variation bound below which volatility is normal: 25.
pub const CV_NORMAL: i64 = 25_000_000;

/// Coefficient-of-variation bound below which volatility is high: 50.
pub const CV_HIGH: i64 = 50_000_000;

impl StandardDeviationConfig {
    /// The default configuration: period 20, sample correction on.
    pub open spec fn spec_default() -> StandardDeviationConfig {
        StandardDeviationConfig { period: 20, use_sample: true }
    }
}

impl Default for StandardDeviationConfig {
    fn default() -> (r: Self)
        ensures
            r == StandardDeviationConfig::spec_default(),
    {
        StandardDeviationConfig { period: 20, use_sample: true }
    }
}

/// One observation in caller units.
#[derive(Debug, Clone, Copy, PartialEq, Eq, Structural)]
pub struct StandardDeviationInput {
    /// Value to fold into the window.
    pub value: i64,
}

/// Volatility classification based on the coefficient of variation.
#[derive(Debug, Clone, Copy, PartialEq, Eq, Structural)]
pub enum VolatilityLevel {
    /// Very low volatility.
    VeryLow,
    /// Low volatility.
    Low,
    /// Normal volatility.
    Normal,
    /// High volatility.
    High,
    /// Very high volatility.
    VeryHigh,
    /// Not enough data yet.
    Insufficient,
}

/// Output of one Standard Deviation calculation.
#[derive(Debug, Clone, Copy, PartialEq, Eq, Structural)]
pub struct StandardDeviationOutput {
    /// Standard deviation, in value units.
    pub std_dev: i64,
    /// Variance, in squared value units.
    pub variance: i128,
    /// Window mean (the current value while the window is short).
    pub mean: i64,
    /// Current input value.
    pub current_value: i64,
    /// Z-score of the current value, in `SCALE` fixed point.
    pub z_score: i64,
    /// Coefficient of variation, in `SCALE` fixed point per percent point.
    pub coefficient_of_variation: i128,
    /// Volatility classification.
    pub volatility_level: VolatilityLevel,
}

/// Mathematical view of the state.
#[verifier::ext_equal]
pub struct SdStateModel {
    pub config: StandardDeviationConfig,
    pub values: Seq<int>,
    pub sum: int,
    pub sum_squared: int,
    pub has_sufficient_data: bool,
    pub current_mean: int,
}

/// Mathematical view of one output.
#[verifier::ext_equal]
pub struct SdOutModel {
    pub std_dev: int,
    pub variance: int,
    pub mean: int,
    pub current_value: int,
    pub z_score: int,
    pub coefficient_of_variation: int,
    pub volatility_level: VolatilityLevel,
}

impl View for StandardDeviationOutput {
    type V = SdOutModel;

    open spec fn view(&self) -> SdOutModel {
        SdOutModel {
            std_dev: self.std_dev as int,
            variance: self.variance as int,
            mean: self.mean as int,
            current_value: self.current_value as int,
            z_score: self.z_score as int,
            coefficient_of_variation: self.coefficient_of_variation as int,
            volatility_level: self.volatility_level,
        }
    }
}

/// Standard Deviation calculation state.
#[derive(Debug, Clone)]
pub struct StandardDeviationState {
    config: StandardDeviationConfig,
    values: VecDeque<i64>,
    sum: i64,
    sum_squared: i128,
    has_sufficient_data: bool,
    current_mean: i64,
}

impl View for StandardDeviationState {
    type V = SdStateModel;

    closed spec fn view(&self) -> SdStateModel {
        SdStateModel {
            config: self.config,
            values: self.values@.map_values(|x: i64| x as int),
            sum: self.sum as int,
            sum_squared: self.sum_squared as int,
            has_sufficient_data: self.has_sufficient_data,
            current_mean: self.current_mean as int,
        }
    }
}

/// The state a freshly built or reset calculator holds.
pub open spec fn spec_sd_init(config: StandardDeviationConfig) -> SdStateModel {
    SdStateModel {
        config,
        values: Seq::empty(),
        sum: 0,
        sum_squared: 0,
        has_sufficient_data: false,
        current_mean: 0,
    }
}

/// Error types for Standard Deviation calculation.
#[derive(Debug, Clone, PartialEq)]
pub enum StandardDeviationError {
    /// Invalid input data (batch helpers: array length mismatch).
    InvalidInput(String),
    /// Value outside the representable range `[0, PRICE_MAX]`.
    InvalidValue,
    /// Period outside the accepted range: at least 2 for sample, at least 1
    /// for population, at most `PERIOD_MAX` for both.
    InvalidPeriod,
    /// Division by zero in calculation (defensive; unreachable here).
    DivisionByZero,
}

/// The error an observation provokes, if any.
pub open spec fn spec_sd_input_error(i: StandardDeviationInput) -> Option<StandardDeviationError> {
    if !valid_price(i.value) {
        Some(StandardDeviationError::InvalidValue)
    } else {
        None
    }
}

/// The error a configuration provokes, if any.
pub open spec fn spec_sd_config_error(c: StandardDeviationConfig) -> Option<
    StandardDeviationError,
> {
    if !valid_period(c.period) {
        Some(StandardDeviationError::InvalidPeriod)
    } else if c.use_sample && c.period <= 1 {
        Some(StandardDeviationError::InvalidPeriod)
    } else {
        None
    }
}

/// The error one `calculate` call returns, if any: input checks come first.
pub open spec fn spec_sd_error(m: SdStateModel, i: StandardDeviationInput) -> Option<
    StandardDeviationError,
> {
    if spec_sd_input_error(i) is Some {
        spec_sd_input_error(i)
    } else {
        spec_sd_config_error(m.config)
    }
}

/// Whether an observation is accepted in this state.
pub open spec fn spec_sd_accepts(m: SdStateModel, i: StandardDeviationInput) -> bool {
    spec_sd_error(m, i) is None
}

/// Fewest window entries a meaningful result needs.
pub open spec fn spec_sd_min_required(c: StandardDeviationConfig) -> int {
    if c.use_sample {
        2
    } else {
        1
    }
}

/// The window after an observation: evict the oldest once full, then append.
pub open spec fn spec_sd_values_next(m: SdStateModel, v: int) -> Seq<int> {
    let t = if m.values.len() >= m.config.period {
        m.values.subrange(1, m.values.len() as int)
    } else {
        m.values
    };
    t.push(v)
}

/// The variance of a window from its sums: the mean of squares minus the
/// squared mean, clamped at zero, with the sample correction when asked for.
pub open spec fn spec_sd_variance(ssq: int, sum: int, n: int, use_sample: bool) -> int {
    let mean = sum / n;
    let raw = ssq / n - mean * mean;
    let clamped = if raw < 0 {
        0
    } else {
        raw
    };
    if use_sample && n > 1 {
        clamped * n / (n - 1)
    } else {
        clamped
    }
}

/// The z-score of a value against a mean and standard deviation, in `SCALE`
/// fixed point, with the moved distance rounded toward zero.
pub open spec fn spec_sd_z_score(v: int, mean: int, std: int) -> int {
    if std == 0 {
        0
    } else if v >= mean {
        (v - mean) * SCALE / std
    } else {
        -((mean - v) * SCALE / std)
    }
}

/// The coefficient of variation, in `SCALE` fixed point per percent point.
pub open spec fn spec_sd_cv(std: int, mean: int) -> int {
    if mean != 0 {
        std * HUNDRED / mean
    } else {
        0
    }
}

/// Volatility classification of a coefficient of variation.
pub open spec fn spec_sd_classify(suff: bool, cv: int) -> VolatilityLevel {
    if !suff {
        VolatilityLevel::Insufficient
    } else if cv < CV_VERY_LOW {
        VolatilityLevel::VeryLow
    } else if cv < CV_LOW {
        VolatilityLevel::Low
    } else if cv < CV_NORMAL {
        VolatilityLevel::Normal
    } else if cv < CV_HIGH {
        VolatilityLevel::High
    } else {
        VolatilityLevel::VeryHigh
    }
}

/// One full step on an accepted observation: the successor state and the
/// emitted output. While the window is short the output is all zero around
/// the current value itself.
pub open spec fn spec_sd_step(m: SdStateModel, i: StandardDeviationInput) -> (
    SdStateModel,
    SdOutModel,
) {
    let v = i.value as int;
    let vals = spec_sd_values_next(m, v);
    let n = vals.len() as int;
    let sum = seq_sum(vals);
    let ssq = seq_sum(spec_squares(vals));
    let mean_state = sum / n;
    let suff = n >= vstd::math::max(m.config.period as int, spec_sd_min_required(m.config));
    let variance = if suff {
        spec_sd_variance(ssq, sum, n, m.config.use_sample)
    } else {
        0
    };
    let std = if suff {
        spec_isqrt(variance)
    } else {
        0
    };
    let mean_out = if suff {
        mean_state
    } else {
        v
    };
    let z = spec_sd_z_score(v, mean_out, std);
    let cv = spec_sd_cv(std, mean_out);
    let next = SdStateModel {
        config: m.config,
        values: vals,
        sum,
        sum_squared: ssq,
        has_sufficient_data: suff,
        current_mean: mean_state,
    };
    let out = SdOutModel {
        std_dev: std,
        variance,
        mean: mean_out,
        current_value: v,
        z_score: z,
        coefficient_of_variation: cv,
        volatility_level: spec_sd_classify(suff, cv),
    };
    (next, out)
}

/// The successor state of one accepted observation.
pub open spec fn spec_sd_next(m: SdStateModel, i: StandardDeviationInput) -> SdStateModel {
    spec_sd_step(m, i).0
}

/// The output emitted for one accepted observation.
pub open spec fn spec_sd_output(m: SdStateModel, i: StandardDeviationInput) -> SdOutModel {
    spec_sd_step(m, i).1
}

/// Well-formedness of a state: an in-range window whose running sums are the
/// window's sums, a cached mean that is the window mean, and a sufficiency
/// flag that reflects the window length.
pub open spec fn sd_wf(m: SdStateModel) -> bool {
    &&& m.values.len() <= m.config.period
    &&& (forall|j: int| 0 <= j < m.values.len() ==> 0 <= #[trigger] m.values[j] <= PRICE_MAX)
    &&& m.sum == seq_sum(m.values)
    &&& m.sum_squared == seq_sum(spec_squares(m.values))
    &&& (m.has_sufficient_data <==> m.values.len() >= vstd::math::max(
        m.config.period as int,
        spec_sd_min_required(m.config),
    ))
    &&& (m.values.len() > 0 ==> m.current_mean == seq_sum(m.values) / m.values.len() as int)
    &&& (m.values.len() == 0 ==> m.current_mean == 0)
}

impl StandardDeviationState {
    /// Build the empty state for a configuration.
    pub fn new(config: StandardDeviationConfig) -> (r: StandardDeviationState)
        ensures
            r@ == spec_sd_init(config),
            sd_wf(r@),
    {
        let r = StandardDeviationState {
            config,
            values: VecDeque::new(),
            sum: 0,
            sum_squared: 0,
            has_sufficient_data: false,
            current_mean: 0,
        };
        proof {
            assert(r@.values =~= Seq::<int>::empty());
            assert(spec_squares(r@.values) =~= Seq::<int>::empty());
            assert(r@ =~= spec_sd_init(config));
        }
        r
    }

    /// An owned copy of this state with the same mathematical view.
    pub fn snapshot(&self) -> (r: StandardDeviationState)
        ensures
            r@ == self@,
    {
        let r = StandardDeviationState {
            config: self.config,
            values: self.values.clone(),
            sum: self.sum,
            sum_squared: self.sum_squared,
            has_sufficient_data: self.has_sufficient_data,
            current_mean: self.current_mean,
        };
        proof {
            assert(r.values@ =~= self.values@);
            assert(r@ =~= self@);
        }
        r
    }

    /// Whether the window has filled.
    pub fn has_sufficient_data(&self) -> (r: bool)
        ensures
            r == self@.has_sufficient_data,
    {
        self.has_sufficient_data
    }
}

/// Standard Deviation calculator.
#[derive(Debug, Clone)]
pub struct StandardDeviation {
    state: StandardDeviationState,
}

impl View for StandardDeviation {
    type V = SdStateModel;

    closed spec fn view(&self) -> SdStateModel {
        self.state@
    }
}

impl StandardDeviation {
    /// Create a new calculator with the default configuration.
    pub fn new() -> (r: Self)
        ensures
            r@ == spec_sd_init(StandardDeviationConfig::spec_default()),
            sd_wf(r@),
    {
        Self::with_config(StandardDeviationConfig::default())
    }

    /// Create a new calculator with a custom period, which is rejected
    /// exactly when it is zero.
    pub fn with_period(period: usize) -> (r: Result<Self, StandardDeviationError>)
        ensures
            match r {
                Ok(c) => {
                    &&& period != 0
                    &&& c@ == spec_sd_init(StandardDeviationConfig { period, use_sample: true })
                    &&& sd_wf(c@)
                },
                Err(e) => period == 0 && e == StandardDeviationError::InvalidPeriod,
            },
    {
        if period == 0 {
            return Err(StandardDeviationError::InvalidPeriod);
        }
        Ok(Self::with_config(StandardDeviationConfig { period, use_sample: true }))
    }

    /// Create a new population calculator, rejected exactly when the period
    /// is zero.
    pub fn population(period: usize) -> (r: Result<Self, StandardDeviationError>)
        ensures
            match r {
                Ok(c) => {
                    &&& period != 0
                    &&& c@ == spec_sd_init(StandardDeviationConfig { period, use_sample: false })
                    &&& sd_wf(c@)
                },
                Err(e) => period == 0 && e == StandardDeviationError::InvalidPeriod,
            },
    {
        if period == 0 {
            return Err(StandardDeviationError::InvalidPeriod);
        }
        Ok(Self::with_config(StandardDeviationConfig { period, use_sample: false }))
    }

    /// Create a new sample calculator, rejected exactly when the period is
    /// at most one.
    pub fn sample(period: usize) -> (r: Result<Self, StandardDeviationError>)
        ensures
            match r {
                Ok(c) => {
                    &&& period > 1
                    &&& c@ == spec_sd_init(StandardDeviationConfig { period, use_sample: true })
                    &&& sd_wf(c@)
                },
                Err(e) => period <= 1 && e == StandardDeviationError::InvalidPeriod,
            },
    {
        if period <= 1 {
            return Err(StandardDeviationError::InvalidPeriod);
        }
        Ok(Self::with_config(StandardDeviationConfig { period, use_sample: true }))
    }

    /// Create a new calculator with a custom configuration; validation is
    /// deferred to `calculate`.
    pub fn with_config(config: StandardDeviationConfig) -> (r: Self)
        ensures
            r@ == spec_sd_init(config),
            sd_wf(r@),
    {
        StandardDeviation { state: StandardDeviationState::new(config) }
    }

    /// Reset the calculator state in place, preserving the configuration.
    pub fn reset(&mut self)
        ensures
            final(self)@ == spec_sd_init(old(self)@.config),
            sd_wf(final(self)@),
    {
        self.state = StandardDeviationState::new(self.state.config);
    }

    /// Current state, for snapshotting.
    pub fn get_state(&self) -> (r: &StandardDeviationState)
        ensures
            r@ == self@,
    {
        &self.state
    }

    /// Restore a previously taken state snapshot.
    pub fn set_state(&mut self, state: StandardDeviationState)
        requires
            sd_wf(state@),
        ensures
            final(self)@ == state@,
    {
        self.state = state;
    }

    /// Current window mean.
    pub fn mean(&self) -> (r: i64)
        ensures
            r == self@.current_mean,
    {
        self.state.current_mean
    }

    /// Volatility level available without a fresh observation: only the
    /// sufficiency of the window is known.
    pub fn volatility_level(&self) -> (r: VolatilityLevel)
        ensures
            r == if self@.has_sufficient_data {
                VolatilityLevel::Normal
            } else {
                VolatilityLevel::Insufficient
            },
    {
        if !self.state.has_sufficient_data {
            VolatilityLevel::Insufficient
        } else {
            VolatilityLevel::Normal
        }
    }

    fn validate_input(&self, input: &StandardDeviationInput) -> (r: Result<
        (),
        StandardDeviationError,
    >)
        ensures
            match r {
                Ok(()) => spec_sd_input_error(*input) is None,
                Err(e) => spec_sd_input_error(*input) == Some(e),
            },
    {
        if input.value < 0 || input.value > PRICE_MAX {
            return Err(StandardDeviationError::InvalidValue);
        }
        Ok(())
    }

    fn validate_config(&self) -> (r: Result<(), StandardDeviationError>)
        ensures
            match r {
                Ok(()) => spec_sd_config_error(self@.config) is None,
                Err(e) => spec_sd_config_error(self@.config) == Some(e),
            },
    {
        if self.state.config.period == 0 || self.state.config.period > PERIOD_MAX {
            return Err(StandardDeviationError::InvalidPeriod);
        }
        if self.state.config.use_sample && self.state.config.period <= 1 {
            return Err(StandardDeviationError::InvalidPeriod);
        }
        Ok(())
    }

    fn calculate_standard_deviation(&self) -> (r: (i64, i128, i64))
        requires
            sd_wf(self@),
            self@.has_sufficient_data,
            valid_period(self@.config.period),
        ensures
            r.1 == spec_sd_variance(
                self@.sum_squared,
                self@.sum,
                self@.values.len() as int,
                self@.config.use_sample,
            ),
            r.0 == spec_isqrt(r.1 as int),
            r.2 == self@.sum / self@.values.len() as int,
            0 <= r.0,
            0 <= r.1 <= 2_000_000_000_000_000_000_000_000,
            0 <= r.2 <= PRICE_MAX,
    {
        let ghost vals = self@.values;
        let n = self.state.values.len();
        proof {
            lemma_seq_sum_bounds(vals, PRICE_MAX as int);
            assert(vals.len() * PRICE_MAX == PRICE_MAX * vals.len()) by (nonlinear_arith);
            lemma_div_nonneg_bound(seq_sum(vals), n as int, PRICE_MAX as int);
            let sq = spec_squares(vals);
            assert forall|j: int| 0 <= j < sq.len() implies 0 <= #[trigger] sq[j]
                <= 1_000_000_000_000_000_000_000_000 by {
                assert(sq[j] == vals[j] * vals[j]);
                assert(0 <= vals[j] * vals[j] <= 1_000_000_000_000_000_000_000_000)
                    by (nonlinear_arith)
                    requires
                        0 <= vals[j] <= 1_000_000_000_000,
                ;
            }
            lemma_seq_sum_bounds(sq, 1_000_000_000_000_000_000_000_000);
            assert(sq.len() * 1_000_000_000_000_000_000_000_000 == 1_000_000_000_000_000_000_000_000
                * sq.len()) by (nonlinear_arith);
            lemma_div_nonneg_bound(seq_sum(sq), n as int, 1_000_000_000_000_000_000_000_000);
        }
        let mean = div_nonneg(self.state.sum, n as i64);
        proof {
            assert(0 <= (mean as int) * (mean as int) <= 1_000_000_000_000_000_000_000_000)
                by (nonlinear_arith)
                requires
                    0 <= mean as int <= 1_000_000_000_000,
            ;
        }
        let mean_sq: i128 = (mean as i128) * (mean as i128);
        let mean_of_squares: i128 = ((self.state.sum_squared as u128) / (n as u128)) as i128;
        let raw: i128 = if mean_of_squares >= mean_sq {
            mean_of_squares - mean_sq
        } else {
            0
        };
        let variance: i128 = if self.state.config.use_sample && n > 1 {
            proof {
                vstd::arithmetic::mul::lemma_mul_nonnegative(raw as int, n as int);
                vstd::arithmetic::mul::lemma_mul_upper_bound(
                    raw as int,
                    1_000_000_000_000_000_000_000_000,
                    n as int,
                    PERIOD_MAX as int,
                );
                assert(raw * n <= (2 * raw) * (n - 1)) by (nonlinear_arith)
                    requires
                        n >= 2,
                        raw >= 0,
                ;
                lemma_div_nonneg_bound(raw * n, n as int - 1, 2 * raw as int);
            }
            (((raw as u128) * (n as u128)) / ((n - 1) as u128)) as i128
        } else {
            raw
        };
        let std_dev = isqrt_i128(variance);
        (std_dev, variance, mean)
    }

    /// Consume one observation. On any error the state is left untouched; on
    /// success the state advances by exactly one step of `spec_sd_next` and
    /// the output is `spec_sd_output`, whose deviation and variance are
    /// non-negative.
    pub fn calculate(&mut self, input: StandardDeviationInput) -> (r: Result<
        StandardDeviationOutput,
        StandardDeviationError,
    >)
        requires
            sd_wf(old(self)@),
        ensures
            sd_wf(final(self)@),
            match r {
                Ok(o) => {
                    &&& spec_sd_accepts(old(self)@, input)
                    &&& final(self)@ == spec_sd_next(old(self)@, input)
                    &&& o@ == spec_sd_output(old(self)@, input)
                    &&& 0 <= o.std_dev
                    &&& 0 <= o.variance
                },
                Err(e) => {
                    &&& spec_sd_error(old(self)@, input) == Some(e)
                    &&& final(self)@ == old(self)@
                },
            },
    {
        match self.validate_input(&input) {
            Ok(()) => {},
            Err(e) => {
                return Err(e);
            },
        }
        match self.validate_config() {
            Ok(()) => {},
            Err(e) => {
                return Err(e);
            },
        }
        let ghost m0 = old(self)@;
        // Update the rolling window and its running sums.
        if self.state.values.len() >= self.state.config.period {
            proof {
                lemma_seq_sum_pop_front(m0.values);
                lemma_seq_sum_pop_front(spec_squares(m0.values));
                assert(spec_squares(m0.values)[0] == m0.values[0] * m0.values[0]);
                assert(spec_squares(m0.values).subrange(1, m0.values.len() as int) =~= spec_squares(
                    m0.values.subrange(1, m0.values.len() as int),
                ));
                let t = m0.values.subrange(1, m0.values.len() as int);
                assert(forall|j: int| 0 <= j < t.len() ==> 0 <= #[trigger] t[j] <= PRICE_MAX);
                lemma_seq_sum_bounds(t, PRICE_MAX as int);
                let tq = spec_squares(t);
                assert forall|j: int| 0 <= j < tq.len() implies 0 <= #[trigger] tq[j]
                    <= 1_000_000_000_000_000_000_000_000 by {
                    assert(tq[j] == t[j] * t[j]);
                    assert(0 <= t[j] * t[j] <= 1_000_000_000_000_000_000_000_000)
                        by (nonlinear_arith)
                        requires
                            0 <= t[j] <= 1_000_000_000_000,
                    ;
                }
                lemma_seq_sum_bounds(tq, 1_000_000_000_000_000_000_000_000);
                assert(0 <= m0.values[0] * m0.values[0] <= 1_000_000_000_000_000_000_000_000)
                    by (nonlinear_arith)
                    requires
                        0 <= m0.values[0] <= 1_000_000_000_000,
                ;
            }
            match self.state.values.pop_front() {
                Some(oldest) => {
                    self.state.sum = self.state.sum - oldest;
                    self.state.sum_squared = self.state.sum_squared - (oldest as i128) * (
                    oldest as i128);
                },
                None => {},
            }
        }
        proof {
            let cur = self.state.values@.map_values(|x: i64| x as int);
            if m0.values.len() >= m0.config.period {
                assert(cur =~= m0.values.subrange(1, m0.values.len() as int));
            } else {
                assert(cur =~= m0.values);
            }
            assert forall|j: int| 0 <= j < cur.len() implies 0 <= #[trigger] cur[j]
                <= PRICE_MAX by {
                if m0.values.len() >= m0.config.period {
                    assert(cur[j] == m0.values[j + 1]);
                } else {
                    assert(cur[j] == m0.values[j]);
                }
            }
            lemma_seq_sum_bounds(cur, PRICE_MAX as int);
            let cq = spec_squares(cur);
            assert forall|j: int| 0 <= j < cq.len() implies 0 <= #[trigger] cq[j]
                <= 1_000_000_000_000_000_000_000_000 by {
                assert(cq[j] == cur[j] * cur[j]);
                assert(0 <= cur[j] * cur[j] <= 1_000_000_000_000_000_000_000_000)
                    by (nonlinear_arith)
                    requires
                        0 <= cur[j] <= 1_000_000_000_000,
                ;
            }
            lemma_seq_sum_bounds(cq, 1_000_000_000_000_000_000_000_000);
            let pre_len = cur.len() as int;
            assert(pre_len * PRICE_MAX <= (PERIOD_MAX - 1) * PRICE_MAX) by (nonlinear_arith)
                requires
                    pre_len <= PERIOD_MAX - 1,
            ;
            assert(pre_len * 1_000_000_000_000_000_000_000_000 <= (PERIOD_MAX - 1)
                * 1_000_000_000_000_000_000_000_000) by (nonlinear_arith)
                requires
                    pre_len <= PERIOD_MAX - 1,
            ;
            assert(0 <= (input.value as int) * (input.value as int)
                <= 1_000_000_000_000_000_000_000_000) by (nonlinear_arith)
                requires
                    0 <= input.value as int <= 1_000_000_000_000,
            ;
        }
        let v_sq: i128 = (input.value as i128) * (input.value as i128);
        self.state.values.push_back(input.value);
        self.state.sum = self.state.sum + input.value;
        self.state.sum_squared = self.state.sum_squared + v_sq;
        let ghost vals = spec_sd_values_next(m0, input.value as int);
        proof {
            assert(self.state.values@.map_values(|x: i64| x as int) =~= vals);
            assert(spec_squares(vals).drop_last() =~= spec_squares(vals.drop_last()));
            assert(vals.drop_last() =~= if m0.values.len() >= m0.config.period {
                m0.values.subrange(1, m0.values.len() as int)
            } else {
                m0.values
            });
            assert forall|j: int| 0 <= j < vals.len() implies 0 <= #[trigger] vals[j]
                <= PRICE_MAX by {
                if j == vals.len() - 1 {
                } else if m0.values.len() >= m0.config.period {
                    assert(vals[j] == m0.values[j + 1]);
                } else {
                    assert(vals[j] == m0.values[j]);
                }
            }
        }
        let n = self.state.values.len();
        proof {
            lemma_seq_sum_bounds(vals, PRICE_MAX as int);
            assert(vals.len() * PRICE_MAX == PRICE_MAX * vals.len()) by (nonlinear_arith);
            lemma_div_nonneg_bound(seq_sum(vals), n as int, PRICE_MAX as int);
        }
        self.state.current_mean = div_nonneg(self.state.sum, n as i64);
        let min_required: usize = if self.state.config.use_sample {
            2
        } else {
            1
        };
        let threshold = if self.state.config.period >= min_required {
            self.state.config.period
        } else {
            min_required
        };
        self.state.has_sufficient_data = n >= threshold;
        // Compute the output components.
        let (std_dev, variance, mean) = if self.state.has_sufficient_data {
            self.calculate_standard_deviation()
        } else {
            (0, 0, input.value)
        };
        let z_score: i64 = if std_dev != 0 {
            let d: i64 = if input.value >= mean {
                input.value - mean
            } else {
                mean - input.value
            };
            proof {
                vstd::arithmetic::mul::lemma_mul_nonnegative(d as int, SCALE as int);
                vstd::arithmetic::mul::lemma_mul_upper_bound(
                    d as int,
                    PRICE_MAX as int,
                    SCALE as int,
                    SCALE as int,
                );
                vstd::arithmetic::div_mod::lemma_div_pos_is_pos(d * SCALE, std_dev as int);
                vstd::arithmetic::div_mod::lemma_div_nonincreasing(d * SCALE, std_dev as int);
            }
            let magnitude = (((d as u128) * (SCALE as u128)) / (std_dev as u128)) as i64;
            if input.value >= mean {
                magnitude
            } else {
                -magnitude
            }
        } else {
            0
        };
        let coefficient_of_variation: i128 = if mean != 0 {
            proof {
                lemma_isqrt_bounds(variance as int);
                assert(std_dev as int <= 10_000_000_000_000) by (nonlinear_arith)
                    requires
                        (std_dev as int) * (std_dev as int) <= variance as int,
                        variance as int <= 100_000_000_000_000_000_000_000_000,
                        std_dev as int >= 0,
                ;
                vstd::arithmetic::mul::lemma_mul_nonnegative(std_dev as int, HUNDRED as int);
                vstd::arithmetic::mul::lemma_mul_upper_bound(
                    std_dev as int,
                    10_000_000_000_000,
                    HUNDRED as int,
                    HUNDRED as int,
                );
                vstd::arithmetic::div_mod::lemma_div_pos_is_pos(std_dev * HUNDRED, mean as int);
                vstd::arithmetic::div_mod::lemma_div_nonincreasing(std_dev * HUNDRED, mean as int);
            }
            (((std_dev as u128) * (HUNDRED as u128)) / (mean as u128)) as i128
        } else {
            0
        };
        let volatility_level = if !self.state.has_sufficient_data {
            VolatilityLevel::Insufficient
        } else if coefficient_of_variation < CV_VERY_LOW as i128 {
            VolatilityLevel::VeryLow
        } else if coefficient_of_variation < CV_LOW as i128 {
            VolatilityLevel::Low
        } else if coefficient_of_variation < CV_NORMAL as i128 {
            VolatilityLevel::Normal
        } else if coefficient_of_variation < CV_HIGH as i128 {
            VolatilityLevel::High
        } else {
            VolatilityLevel::VeryHigh
        };
        let out = StandardDeviationOutput {
            std_dev,
            variance,
            mean,
            current_value: input.value,
            z_score,
            coefficient_of_variation,
            volatility_level,
        };
        proof {
            assert(final(self)@ =~= spec_sd_next(m0, input));
            assert(out@ =~= spec_sd_output(m0, input));
        }
        Ok(out)
    }
}

impl Default for StandardDeviation {
    fn default() -> (r: Self)
        ensures
            r@ == spec_sd_init(StandardDeviationConfig::spec_default()),
    {
        Self::new()
    }
}


/// Result of folding an observation sequence through the calculator.
#[verifier::ext_equal]
pub struct SdRunModel {
    pub state: SdStateModel,
    pub outputs: Seq<SdOutModel>,
    pub error: Option<StandardDeviationError>,
}

/// Fold an observation sequence through the calculator, stopping at the
/// first error.
pub open spec fn spec_sd_run(m: SdStateModel, inputs: Seq<StandardDeviationInput>) -> SdRunModel
    decreases inputs.len(),
{
    if inputs.len() == 0 {
        SdRunModel { state: m, outputs: Seq::empty(), error: None }
    } else {
        let i = inputs[0];
        if spec_sd_accepts(m, i) {
            let rest = spec_sd_run(spec_sd_next(m, i), inputs.subrange(1, inputs.len() as int));
            SdRunModel {
                state: rest.state,
                outputs: seq![spec_sd_output(m, i)] + rest.outputs,
                error: rest.error,
            }
        } else {
            SdRunModel { state: m, outputs: Seq::empty(), error: spec_sd_error(m, i) }
        }
    }
}

impl StandardDeviation {
    /// Calculate for a batch of observations: a strict left-to-right fold
    /// that stops at the first error, whose partial state survives.
    pub fn calculate_batch(&mut self, inputs: &[StandardDeviationInput]) -> (r: Result<
        Vec<StandardDeviationOutput>,
        StandardDeviationError,
    >)
        requires
            sd_wf(old(self)@),
        ensures
            sd_wf(final(self)@),
            final(self)@ == spec_sd_run(old(self)@, inputs@).state,
            match r {
                Ok(v) => {
                    &&& (spec_sd_run(old(self)@, inputs@).error is None)
                    &&& v@.map_values(|o: StandardDeviationOutput| o@) == spec_sd_run(
                        old(self)@,
                        inputs@,
                    ).outputs
                },
                Err(e) => spec_sd_run(old(self)@, inputs@).error == Some(e),
            },
    {
        let ghost m0 = old(self)@;
        let ghost all = inputs@;
        proof {
            assert(all.subrange(0, all.len() as int) =~= all);
        }
        let mut results: Vec<StandardDeviationOutput> = Vec::new();
        let mut idx: usize = 0;
        while idx < inputs.len()
            invariant
                sd_wf(self@),
                0 <= idx <= inputs.len(),
                m0 == old(self)@,
                all == inputs@,
                spec_sd_run(m0, all).state == spec_sd_run(
                    self@,
                    all.subrange(idx as int, all.len() as int),
                ).state,
                spec_sd_run(m0, all).error == spec_sd_run(
                    self@,
                    all.subrange(idx as int, all.len() as int),
                ).error,
                spec_sd_run(m0, all).outputs == results@.map_values(
                    |o: StandardDeviationOutput| o@,
                ) + spec_sd_run(self@, all.subrange(idx as int, all.len() as int)).outputs,
            decreases inputs.len() - idx,
        {
            let ghost pre = self@;
            let ghost rest = all.subrange(idx as int, all.len() as int);
            proof {
                assert(rest.len() > 0);
                assert(rest[0] == all[idx as int]);
                assert(rest.subrange(1, rest.len() as int) =~= all.subrange(
                    idx as int + 1,
                    all.len() as int,
                ));
            }
            match self.calculate(inputs[idx]) {
                Ok(o) => {
                    results.push(o);
                    proof {
                        assert(results@.map_values(|o: StandardDeviationOutput| o@)
                            =~= results@.subrange(0, results@.len() - 1).map_values(
                            |o: StandardDeviationOutput| o@,
                        ).push(o@));
                        assert(spec_sd_run(pre, rest).outputs == seq![
                            spec_sd_output(pre, rest[0]),
                        ] + spec_sd_run(self@, rest.subrange(1, rest.len() as int)).outputs);
                        assert(spec_sd_run(m0, all).outputs == results@.map_values(
                            |o: StandardDeviationOutput| o@,
                        ) + spec_sd_run(
                            self@,
                            all.subrange(idx as int + 1, all.len() as int),
                        ).outputs);
                    }
                },
                Err(e) => {
                    proof {
                        assert(spec_sd_run(pre, rest).error == Some(e));
                        assert(spec_sd_run(pre, rest).state == pre);
                        assert(spec_sd_run(pre, rest).outputs =~= Seq::<SdOutModel>::empty());
                        assert(results@.map_values(|o: StandardDeviationOutput| o@) + Seq::<
                            SdOutModel,
                        >::empty() =~= results@.map_values(|o: StandardDeviationOutput| o@));
                    }
                    return Err(e);
                },
            }
            idx = idx + 1;
        }
        proof {
            let rest = all.subrange(idx as int, all.len() as int);
            assert(rest =~= Seq::<StandardDeviationInput>::empty());
            assert(results@.map_values(|o: StandardDeviationOutput| o@) + Seq::<
                SdOutModel,
            >::empty() =~= results@.map_values(|o: StandardDeviationOutput| o@));
        }
        Ok(results)
    }
}

/// The observation sequence formed from a value array.
pub open spec fn spec_sd_inputs(values: Seq<i64>) -> Seq<StandardDeviationInput> {
    Seq::new(values.len(), |k: int| StandardDeviationInput { value: values[k] })
}

/// The run that `calculate_standard_deviation_simple` performs.
pub open spec fn spec_sd_simple_run(values: Seq<i64>, period: usize, use_sample: bool) -> SdRunModel {
    spec_sd_run(
        spec_sd_init(StandardDeviationConfig { period, use_sample }),
        spec_sd_inputs(values),
    )
}

/// Calculate the standard-deviation series of a value array without keeping
/// a calculator: the values are folded through a fresh calculator with the
/// given configuration and the `std_dev` field of each output is collected.
/// An empty series yields an empty result.
pub fn calculate_standard_deviation_simple(
    values: &[i64],
    period: usize,
    use_sample: bool,
) -> (r: Result<Vec<i64>, StandardDeviationError>)
    ensures
        match r {
            Ok(v) => {
                &&& (values@.len() == 0 ==> v@.len() == 0)
                &&& (values@.len() > 0 ==> spec_sd_simple_run(
                    values@,
                    period,
                    use_sample,
                ).error is None)
                &&& (values@.len() > 0 ==> v@.len() == spec_sd_simple_run(
                    values@,
                    period,
                    use_sample,
                ).outputs.len())
                &&& (forall|k: int| 0 <= k < v@.len() && values@.len() > 0 ==> v@[k]
                    == #[trigger] spec_sd_simple_run(
                    values@,
                    period,
                    use_sample,
                ).outputs[k].std_dev)
            },
            Err(e) => {
                &&& values@.len() > 0
                &&& Some(e) == spec_sd_simple_run(values@, period, use_sample).error
            },
        },
{
    if values.len() == 0 {
        return Ok(Vec::new());
    }
    let config = StandardDeviationConfig { period, use_sample };
    let mut std_dev_calculator = StandardDeviation::with_config(config);
    let ghost m0 = std_dev_calculator@;
    let ghost all = spec_sd_inputs(values@);
    proof {
        assert(all.subrange(0, all.len() as int) =~= all);
    }
    let len = values.len();
    let mut results: Vec<i64> = Vec::new();
    let mut idx: usize = 0;
    while idx < len
        invariant
            sd_wf(std_dev_calculator@),
            0 <= idx <= len,
            len == values@.len(),
            m0 == spec_sd_init(StandardDeviationConfig { period, use_sample }),
            all == spec_sd_inputs(values@),
            spec_sd_run(m0, all).error == spec_sd_run(
                std_dev_calculator@,
                all.subrange(idx as int, all.len() as int),
            ).error,
            results@.len() + spec_sd_run(
                std_dev_calculator@,
                all.subrange(idx as int, all.len() as int),
            ).outputs.len() == spec_sd_run(m0, all).outputs.len(),
            forall|k: int| 0 <= k < results@.len() ==> results@[k] == #[trigger] spec_sd_run(
                m0,
                all,
            ).outputs[k].std_dev,
            forall|k: int| results@.len() <= k < spec_sd_run(m0, all).outputs.len()
                ==> #[trigger] spec_sd_run(m0, all).outputs[k] == spec_sd_run(
                std_dev_calculator@,
                all.subrange(idx as int, all.len() as int),
            ).outputs[k - results@.len()],
        decreases len - idx,
    {
        let ghost pre = std_dev_calculator@;
        let ghost rest = all.subrange(idx as int, all.len() as int);
        proof {
            assert(rest.len() > 0);
            assert(rest[0] == all[idx as int]);
            assert(rest.subrange(1, rest.len() as int) =~= all.subrange(
                idx as int + 1,
                all.len() as int,
            ));
        }
        let input = StandardDeviationInput { value: values[idx] };
        proof {
            assert(rest[0] == input);
        }
        let output = match std_dev_calculator.calculate(input) {
            Ok(o) => o,
            Err(e) => {
                proof {
                    assert(spec_sd_run(pre, rest).error == Some(e));
                }
                return Err(e);
            },
        };
        results.push(output.std_dev);
        proof {
            assert(spec_sd_run(pre, rest).outputs == seq![spec_sd_output(pre, rest[0])]
                + spec_sd_run(
                std_dev_calculator@,
                rest.subrange(1, rest.len() as int),
            ).outputs);
            assert(results@[results@.len() - 1] == spec_sd_output(pre, rest[0]).std_dev);
        }
        idx = idx + 1;
    }
    proof {
        let rest = all.subrange(idx as int, all.len() as int);
        assert(rest =~= Seq::<StandardDeviationInput>::empty());
    }
    Ok(results)
}


/// The window ending at index `i`: the last `window` values, or all of them
/// while fewer exist.
pub open spec fn spec_rolling_window(values: Seq<int>, window: int, i: int) -> Seq<int> {
    values.subrange(
        if i + 1 >= window {
            i + 1 - window
        } else {
            0
        },
        i + 1,
    )
}

/// The rolling standard deviation at index `i`: the deviation-form variance
/// of the window around its mean, with the sample denominator when asked
/// for, under the integer square root. Zero while the window is shorter
/// than the minimum a meaningful result needs.
pub open spec fn spec_rolling_std_at(
    values: Seq<int>,
    window: int,
    use_sample: bool,
    i: int,
) -> int {
    let w = spec_rolling_window(values, window, i);
    let n = w.len() as int;
    let min_required: int = if use_sample {
        2
    } else {
        1
    };
    if n >= min_required {
        let mean = seq_sum(w) / n;
        let denom: int = if use_sample && n > 1 {
            n - 1
        } else {
            n
        };
        spec_isqrt(seq_sq_dev_sum(w, mean) / denom)
    } else {
        0
    }
}

/// Calculate the rolling standard deviation of a value array: one result per
/// index, each over the window of the last `window` values. A zero window or
/// an empty array yields an empty result; an array shorter than the window
/// yields all zeros.
pub fn rolling_standard_deviation(values: &[i64], window: usize, use_sample: bool) -> (r: Result<
    Vec<i64>,
    StandardDeviationError,
>)
    ensures
        match r {
            Ok(v) => {
                &&& (values@.len() == 0 || window == 0 ==> v@.len() == 0)
                &&& (values@.len() > 0 && window > 0 && values@.len() < window ==> v@.len()
                    == values@.len() && (forall|k: int| 0 <= k < v@.len() ==> #[trigger] v@[k]
                    == 0))
                &&& (values@.len() >= window && window > 0 ==> window <= PERIOD_MAX)
                &&& (values@.len() >= window && window > 0 ==> (forall|j: int|
                    0 <= j < values@.len() ==> valid_price(#[trigger] values@[j])))
                &&& (values@.len() >= window && window > 0 ==> v@.len() == values@.len())
                &&& (values@.len() >= window && window > 0 ==> (forall|k: int|
                    0 <= k < v@.len() ==> #[trigger] v@[k] == spec_rolling_std_at(
                        values@.map_values(|x: i64| x as int),
                        window as int,
                        use_sample,
                        k,
                    )))
            },
            Err(e) => {
                &&& values@.len() >= window && window > 0
                &&& (e == StandardDeviationError::InvalidPeriod && window > PERIOD_MAX) || (e
                    == StandardDeviationError::InvalidValue && window <= PERIOD_MAX && (exists|
                    j: int|
                    0 <= j < values@.len() && !valid_price(#[trigger] values@[j])))
            },
        },
{
    if values.len() == 0 || window == 0 {
        return Ok(Vec::new());
    }
    if values.len() < window {
        let mut zeros: Vec<i64> = Vec::new();
        let mut k: usize = 0;
        while k < values.len()
            invariant
                0 <= k <= values@.len(),
                window > 0,
                values@.len() < window,
                zeros@.len() == k,
                forall|j: int| 0 <= j < zeros@.len() ==> #[trigger] zeros@[j] == 0,
            decreases values.len() - k,
        {
            zeros.push(0);
            k = k + 1;
        }
        return Ok(zeros);
    }
    if window > PERIOD_MAX {
        return Err(StandardDeviationError::InvalidPeriod);
    }
    // Validate the whole array up front, as the calculators do per bar.
    let mut k: usize = 0;
    while k < values.len()
        invariant
            0 <= k <= values@.len(),
            window > 0,
            window <= PERIOD_MAX,
            values@.len() >= window,
            forall|j: int| 0 <= j < k ==> valid_price(#[trigger] values@[j]),
        decreases values.len() - k,
    {
        if values[k] < 0 || values[k] > PRICE_MAX {
            proof {
                assert(0 <= (k as int) < values@.len() && !valid_price(values@[k as int]));
            }
            return Err(StandardDeviationError::InvalidValue);
        }
        k = k + 1;
    }
    let ghost allm = values@.map_values(|x: i64| x as int);
    let len = values.len();
    let min_required: usize = if use_sample {
        2
    } else {
        1
    };
    let mut results: Vec<i64> = Vec::new();
    let mut i: usize = 0;
    while i < len
        invariant
            0 <= i <= len,
            len == values@.len(),
            window >= 1,
            window <= PERIOD_MAX,
            len >= window,
            min_required == if use_sample {
                2int
            } else {
                1int
            },
            allm == values@.map_values(|x: i64| x as int),
            forall|j: int| 0 <= j < len ==> valid_price(#[trigger] values@[j]),
            results@.len() == i,
            forall|k2: int| 0 <= k2 < results@.len() ==> #[trigger] results@[k2]
                == spec_rolling_std_at(allm, window as int, use_sample, k2),
        decreases len - i,
    {
        let start: usize = if i + 1 >= window {
            i + 1 - window
        } else {
            0
        };
        let n: usize = i + 1 - start;
        let ghost w = spec_rolling_window(allm, window as int, i as int);
        proof {
            assert(w.len() == n);
            assert(forall|j: int| 0 <= j < w.len() ==> #[trigger] w[j] == allm[start + j]);
            assert(forall|j: int| 0 <= j < w.len() ==> 0 <= #[trigger] w[j] <= PRICE_MAX);
        }
        let value: i64 = if n >= min_required {
            // Window sum.
            let mut sum: i64 = 0;
            let mut j: usize = start;
            proof {
                assert(w.subrange(0, 0) =~= Seq::<int>::empty());
            }
            while j < i + 1
                invariant
                    start <= j <= i + 1,
                    i < len == values@.len(),
                    start + w.len() == i + 1,
                    n == w.len(),
                    n <= PERIOD_MAX,
                    allm == values@.map_values(|x: i64| x as int),
                    forall|k2: int| 0 <= k2 < w.len() ==> #[trigger] w[k2] == allm[start + k2],
                    forall|k2: int| 0 <= k2 < w.len() ==> 0 <= #[trigger] w[k2] <= PRICE_MAX,
                    sum == seq_sum(w.subrange(0, j - start)),
                    0 <= sum <= (j - start) * PRICE_MAX,
                decreases i + 1 - j,
            {
                proof {
                    lemma_seq_sum_extend(w, j - start);
                    assert((j - start) * PRICE_MAX + PRICE_MAX == (j - start + 1) * PRICE_MAX)
                        by (nonlinear_arith);
                    assert(w[j - start] == allm[j as int]);
                }
                sum = sum + values[j];
                j = j + 1;
            }
            proof {
                assert(w.subrange(0, n as int) =~= w);
                assert(w.len() * PRICE_MAX == PRICE_MAX * w.len()) by (nonlinear_arith);
                lemma_div_nonneg_bound(seq_sum(w), n as int, PRICE_MAX as int);
            }
            let mean = div_nonneg(sum, n as i64);
            // Window squared deviations from the mean.
            let mut dev_sum: i128 = 0;
            let mut j2: usize = start;
            proof {
                assert(w.subrange(0, 0) =~= Seq::<int>::empty());
            }
            while j2 < i + 1
                invariant
                    start <= j2 <= i + 1,
                    i < len == values@.len(),
                    start + w.len() == i + 1,
                    n == w.len(),
                    n <= PERIOD_MAX,
                    0 <= mean <= PRICE_MAX,
                    allm == values@.map_values(|x: i64| x as int),
                    forall|k2: int| 0 <= k2 < w.len() ==> #[trigger] w[k2] == allm[start + k2],
                    forall|k2: int| 0 <= k2 < w.len() ==> 0 <= #[trigger] w[k2] <= PRICE_MAX,
                    dev_sum == seq_sq_dev_sum(w.subrange(0, j2 - start), mean as int),
                    0 <= dev_sum <= (j2 - start) * (1_000_000_000_000_000_000_000_000int),
                decreases i + 1 - j2,
            {
                proof {
                    lemma_seq_sq_dev_sum_extend(w, mean as int, j2 - start);
                    assert((j2 - start) * 1_000_000_000_000_000_000_000_000
                        + 1_000_000_000_000_000_000_000_000 == (j2 - start + 1)
                        * 1_000_000_000_000_000_000_000_000) by (nonlinear_arith);
                    assert(w[j2 - start] == allm[j2 as int]);
                }
                let d: i64 = if values[j2] >= mean {
                    values[j2] - mean
                } else {
                    mean - values[j2]
                };
                proof {
                    assert((d as int) * (d as int) == (allm[j2 as int] - mean) * (allm[j2 as int]
                        - mean)) by (nonlinear_arith)
                        requires
                            d as int == if allm[j2 as int] >= mean {
                                allm[j2 as int] - mean as int
                            } else {
                                mean - allm[j2 as int]
                            },
                    ;
                    assert(0 <= (d as int) * (d as int) <= 1_000_000_000_000_000_000_000_000)
                        by (nonlinear_arith)
                        requires
                            0 <= d as int <= 1_000_000_000_000,
                    ;
                }
                dev_sum = dev_sum + (d as i128) * (d as i128);
                j2 = j2 + 1;
            }
            proof {
                assert(w.subrange(0, n as int) =~= w);
            }
            let denom: usize = if use_sample && n > 1 {
                n - 1
            } else {
                n
            };
            proof {
                assert(dev_sum <= 2_000_000_000_000_000_000_000_000 * (denom as int))
                    by (nonlinear_arith)
                    requires
                        dev_sum <= (n as int) * 1_000_000_000_000_000_000_000_000,
                        n as int <= 2 * denom as int,
                        denom as int >= 1,
                ;
                lemma_div_nonneg_bound(
                    dev_sum as int,
                    denom as int,
                    2_000_000_000_000_000_000_000_000,
                );
            }
            let variance: i128 = ((dev_sum as u128) / (denom as u128)) as i128;
            isqrt_i128(variance)
        } else {
            0
        };
        results.push(value);
        i = i + 1;
    }
    Ok(results)
}

} // verus!
