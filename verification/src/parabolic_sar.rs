//! Parabolic SAR (Stop and Reverse).
//!
//! A trend-following state machine. The first bar only arms the machine, the
//! second bar fixes the initial trend and stop level, and every later bar
//! either continues the trend — moving the stop a fraction (the acceleration
//! factor) of the way toward the extreme point, clamped away from the last
//! two bars' range — or reverses it when the bar crosses the stop. Prices
//! are caller-scaled integers; acceleration factors are fractions of one in
//! `SCALE` units (so `SCALE / 50` is the classic 0.02 start).

use vstd::prelude::*;

use crate::common::{valid_price, af_fraction, PRICE_MAX, SCALE};

verus! {

/// Configuration for Parabolic SAR calculation, all in `SCALE` fixed point.
#[derive(Debug, Clone, Copy, PartialEq, Eq, Structural)]
pub struct ParabolicSARConfig {
    /// Initial acceleration factor.
    pub acceleration_start: i64,
    /// Increment applied on every new extreme point.
    pub acceleration_increment: i64,
    /// Cap on the acceleration factor.
    pub acceleration_maximum: i64,
}

/// Default initial acceleration factor: 0.02 in `SCALE` fixed point.
pub const DEFAULT_ACCELERATION_START: i64 = 20_000;

/// Default acceleration increment: 0.02 in `SCALE` fixed point.
pub const DEFAULT_ACCELERATION_INCREMENT: i64 = 20_000;

/// Default acceleration cap: 0.20 in `SCALE` fixed point.
pub const DEFAULT_ACCELERATION_MAXIMUM: i64 = 200_000;

impl ParabolicSARConfig {
    /// The default configuration: start 0.02, increment 0.02, maximum 0.20.
    pub open spec fn spec_default() -> ParabolicSARConfig {
        ParabolicSARConfig {
            acceleration_start: DEFAULT_ACCELERATION_START,
            acceleration_increment: DEFAULT_ACCELERATION_INCREMENT,
            acceleration_maximum: DEFAULT_ACCELERATION_MAXIMUM,
        }
    }
}

impl Default for ParabolicSARConfig {
    fn default() -> (r: Self)
        ensures
            r == ParabolicSARConfig::spec_default(),
    {
        ParabolicSARConfig {
            acceleration_start: DEFAULT_ACCELERATION_START,
            acceleration_increment: DEFAULT_ACCELERATION_INCREMENT,
            acceleration_maximum: DEFAULT_ACCELERATION_MAXIMUM,
        }
    }
}

/// One high/low bar, with an optional close, in caller price units.
#[derive(Debug, Clone, Copy, PartialEq, Eq, Structural)]
pub struct ParabolicSARInput {
    /// High price.
    pub high: i64,
    /// Low price.
    pub low: i64,
    /// Close price, if known.
    pub close: Option<i64>,
}

/// Current trend direction.
#[derive(Debug, Clone, Copy, PartialEq, Eq, Structural)]
pub enum TrendDirection {
    /// Uptrend: the stop sits below the price.
    Up,
    /// Downtrend: the stop sits above the price.
    Down,
}

/// Output of one Parabolic SAR calculation.
#[derive(Debug, Clone, Copy, PartialEq, Eq, Structural)]
pub struct ParabolicSAROutput {
    /// Stop-and-reverse level, in price units.
    pub sar: i64,
    /// Current trend direction.
    pub trend: TrendDirection,
    /// Current acceleration factor, in `SCALE` fixed point.
    pub acceleration_factor: i64,
    /// Extreme point of the current trend, in price units.
    pub extreme_point: i64,
    /// Whether this bar reversed the trend.
    pub trend_reversal: bool,
    /// Number of bars in the current trend.
    pub trend_periods: usize,
}

/// Mathematical view of the state.
#[verifier::ext_equal]
pub struct SarStateModel {
    pub config: ParabolicSARConfig,
    pub trend: Option<TrendDirection>,
    pub current_sar: Option<int>,
    pub acceleration_factor: int,
    pub extreme_point: Option<int>,
    pub previous_high: Option<int>,
    pub previous_low: Option<int>,
    pub previous_close: Option<int>,
    pub trend_periods: int,
    pub is_first: bool,
    pub is_second: bool,
}

/// Mathematical view of one output.
#[verifier::ext_equal]
pub struct SarOutModel {
    pub sar: int,
    pub trend: TrendDirection,
    pub acceleration_factor: int,
    pub extreme_point: int,
    pub trend_reversal: bool,
    pub trend_periods: int,
}

impl View for ParabolicSAROutput {
    type V = SarOutModel;

    open spec fn view(&self) -> SarOutModel {
        SarOutModel {
            sar: self.sar as int,
            trend: self.trend,
            acceleration_factor: self.acceleration_factor as int,
            extreme_point: self.extreme_point as int,
            trend_reversal: self.trend_reversal,
            trend_periods: self.trend_periods as int,
        }
    }
}

/// Parabolic SAR calculation state.
#[derive(Debug, Clone)]
pub struct ParabolicSARState {
    config: ParabolicSARConfig,
    trend: Option<TrendDirection>,
    current_sar: Option<i64>,
    acceleration_factor: i64,
    extreme_point: Option<i64>,
    previous_high: Option<i64>,
    previous_low: Option<i64>,
    previous_close: Option<i64>,
    trend_periods: usize,
    is_first: bool,
    is_second: bool,
}

impl View for ParabolicSARState {
    type V = SarStateModel;

    closed spec fn view(&self) -> SarStateModel {
        SarStateModel {
            config: self.config,
            trend: self.trend,
            current_sar: crate::common::opt_int(self.current_sar),
            acceleration_factor: self.acceleration_factor as int,
            extreme_point: crate::common::opt_int(self.extreme_point),
            previous_high: crate::common::opt_int(self.previous_high),
            previous_low: crate::common::opt_int(self.previous_low),
            previous_close: crate::common::opt_int(self.previous_close),
            trend_periods: self.trend_periods as int,
            is_first: self.is_first,
            is_second: self.is_second,
        }
    }
}

/// The state a freshly built or reset calculator holds.
pub open spec fn spec_sar_init(config: ParabolicSARConfig) -> SarStateModel {
    SarStateModel {
        config,
        trend: None,
        current_sar: None,
        acceleration_factor: config.acceleration_start as int,
        extreme_point: None,
        previous_high: None,
        previous_low: None,
        previous_close: None,
        trend_periods: 0,
        is_first: true,
        is_second: false,
    }
}

/// Error types for Parabolic SAR calculation.
#[derive(Debug, Clone, PartialEq)]
pub enum ParabolicSARError {
    /// Invalid input data (batch helpers: array length mismatch).
    InvalidInput(String),
    /// High below low.
    InvalidHL,
    /// Price outside the representable range `[0, PRICE_MAX]`.
    InvalidPrice,
    /// Acceleration parameters outside `0 < start < maximum <= SCALE`,
    /// `0 < increment <= SCALE`.
    InvalidAcceleration,
    /// Close price not between low and high.
    CloseOutOfRange,
}

/// The error a bar itself provokes, if any.
pub open spec fn spec_sar_input_error(i: ParabolicSARInput) -> Option<ParabolicSARError> {
    if !valid_price(i.high) || !valid_price(i.low) {
        Some(ParabolicSARError::InvalidPrice)
    } else if i.high < i.low {
        Some(ParabolicSARError::InvalidHL)
    } else {
        match i.close {
            Some(c) => if !valid_price(c) {
                Some(ParabolicSARError::InvalidPrice)
            } else if c < i.low || c > i.high {
                Some(ParabolicSARError::CloseOutOfRange)
            } else {
                None
            },
            None => None,
        }
    }
}

/// Whether a configuration is accepted: classic Wilder constraints plus the
/// fixed-point cap that keeps every factor a fraction of one.
pub open spec fn spec_sar_config_ok(c: ParabolicSARConfig) -> bool {
    &&& 0 < c.acceleration_start
    &&& 0 < c.acceleration_increment <= SCALE
    &&& c.acceleration_start < c.acceleration_maximum <= SCALE
}

/// The error a configuration provokes, if any.
pub open spec fn spec_sar_config_error(c: ParabolicSARConfig) -> Option<ParabolicSARError> {
    if spec_sar_config_ok(c) {
        None
    } else {
        Some(ParabolicSARError::InvalidAcceleration)
    }
}

/// The error one `calculate` call returns, if any: input checks come first.
pub open spec fn spec_sar_error(m: SarStateModel, i: ParabolicSARInput) -> Option<
    ParabolicSARError,
> {
    if spec_sar_input_error(i) is Some {
        spec_sar_input_error(i)
    } else {
        spec_sar_config_error(m.config)
    }
}

/// Whether a bar is accepted in this state.
pub open spec fn spec_sar_accepts(m: SarStateModel, i: ParabolicSARInput) -> bool {
    spec_sar_error(m, i) is None
}

/// The previous close after a bar: a bar without a close leaves it alone.
pub open spec fn spec_prev_close_next(m: SarStateModel, i: ParabolicSARInput) -> Option<int> {
    match i.close {
        Some(c) => Some(c as int),
        None => m.previous_close,
    }
}

/// Whether the steady-state machine reverses on this bar: an uptrend ends
/// when the low touches the stop, a downtrend when the high does.
pub open spec fn spec_sar_reversal(m: SarStateModel, i: ParabolicSARInput) -> bool {
    match m.trend {
        Some(TrendDirection::Up) => i.low <= m.current_sar->Some_0,
        Some(TrendDirection::Down) => i.high >= m.current_sar->Some_0,
        None => false,
    }
}

/// The parabolic advance: move `sar` a fraction `af / SCALE` of the way
/// toward `ep`, rounding the moved distance toward zero.
pub open spec fn spec_sar_advance(sar: int, af: int, ep: int) -> int {
    if ep >= sar {
        sar + af * (ep - sar) / (SCALE as int)
    } else {
        sar - af * (sar - ep) / (SCALE as int)
    }
}

/// The saturating bar counter of a trend.
pub open spec fn spec_periods_next(tp: int) -> int {
    if tp < usize::MAX {
        tp + 1
    } else {
        tp
    }
}

/// One full step of the state machine on an accepted bar: the successor
/// state and the emitted output.
pub open spec fn spec_sar_step(m: SarStateModel, i: ParabolicSARInput) -> (
    SarStateModel,
    SarOutModel,
) {
    if m.is_first {
        let next = SarStateModel {
            is_first: false,
            is_second: true,
            previous_high: Some(i.high as int),
            previous_low: Some(i.low as int),
            previous_close: spec_prev_close_next(m, i),
            ..m
        };
        let out = SarOutModel {
            sar: i.low as int,
            trend: TrendDirection::Up,
            acceleration_factor: m.config.acceleration_start as int,
            extreme_point: i.high as int,
            trend_reversal: false,
            trend_periods: 1,
        };
        (next, out)
    } else if m.is_second {
        let ph = m.previous_high->Some_0;
        let pl = m.previous_low->Some_0;
        let trend = if i.high > ph {
            TrendDirection::Up
        } else {
            TrendDirection::Down
        };
        let sar = if trend == TrendDirection::Up {
            pl
        } else {
            ph
        };
        let ep = if trend == TrendDirection::Up {
            vstd::math::max(i.high as int, ph)
        } else {
            vstd::math::min(i.low as int, pl)
        };
        let next = SarStateModel {
            is_second: false,
            trend: Some(trend),
            current_sar: Some(sar),
            extreme_point: Some(ep),
            trend_periods: 1,
            previous_high: Some(i.high as int),
            previous_low: Some(i.low as int),
            previous_close: spec_prev_close_next(m, i),
            ..m
        };
        let out = SarOutModel {
            sar,
            trend,
            acceleration_factor: m.acceleration_factor,
            extreme_point: ep,
            trend_reversal: false,
            trend_periods: 1,
        };
        (next, out)
    } else if spec_sar_reversal(m, i) {
        let old_trend = m.trend->Some_0;
        let new_trend = if old_trend == TrendDirection::Up {
            TrendDirection::Down
        } else {
            TrendDirection::Up
        };
        let new_sar = m.extreme_point->Some_0;
        let new_ep = if new_trend == TrendDirection::Up {
            i.high as int
        } else {
            i.low as int
        };
        let next = SarStateModel {
            acceleration_factor: m.config.acceleration_start as int,
            trend: Some(new_trend),
            current_sar: Some(new_sar),
            extreme_point: Some(new_ep),
            trend_periods: 1,
            previous_high: Some(i.high as int),
            previous_low: Some(i.low as int),
            previous_close: spec_prev_close_next(m, i),
            ..m
        };
        let out = SarOutModel {
            sar: new_sar,
            trend: new_trend,
            acceleration_factor: m.config.acceleration_start as int,
            extreme_point: new_ep,
            trend_reversal: true,
            trend_periods: 1,
        };
        (next, out)
    } else {
        let trend = m.trend->Some_0;
        let sar = m.current_sar->Some_0;
        let ep = m.extreme_point->Some_0;
        let new_ep = if trend == TrendDirection::Up {
            vstd::math::max(ep, i.high as int)
        } else {
            vstd::math::min(ep, i.low as int)
        };
        let ep_updated = new_ep != ep;
        let af = if ep_updated {
            vstd::math::min(
                m.acceleration_factor + m.config.acceleration_increment,
                m.config.acceleration_maximum as int,
            )
        } else {
            m.acceleration_factor
        };
        let raw = spec_sar_advance(sar, af, new_ep);
        let new_sar = if trend == TrendDirection::Up {
            vstd::math::min(vstd::math::min(raw, i.low as int), m.previous_low->Some_0)
        } else {
            vstd::math::max(vstd::math::max(raw, i.high as int), m.previous_high->Some_0)
        };
        let tp = spec_periods_next(m.trend_periods);
        let next = SarStateModel {
            current_sar: Some(new_sar),
            extreme_point: Some(new_ep),
            acceleration_factor: af,
            trend_periods: tp,
            previous_high: Some(i.high as int),
            previous_low: Some(i.low as int),
            previous_close: spec_prev_close_next(m, i),
            ..m
        };
        let out = SarOutModel {
            sar: new_sar,
            trend,
            acceleration_factor: af,
            extreme_point: new_ep,
            trend_reversal: false,
            trend_periods: tp,
        };
        (next, out)
    }
}

/// The successor state of one accepted bar.
pub open spec fn spec_sar_next(m: SarStateModel, i: ParabolicSARInput) -> SarStateModel {
    spec_sar_step(m, i).0
}

/// The output emitted for one accepted bar.
pub open spec fn spec_sar_output(m: SarStateModel, i: ParabolicSARInput) -> SarOutModel {
    spec_sar_step(m, i).1
}

/// Well-formedness of a state: the phase discipline, price ranges, the
/// acceleration-factor window under an accepted configuration, and the
/// stop-extreme ordering of the current trend.
pub open spec fn sar_wf(m: SarStateModel) -> bool {
    &&& (m.is_first ==> {
        &&& !m.is_second
        &&& m.trend is None
        &&& m.current_sar is None
        &&& m.extreme_point is None
    })
    &&& (m.is_second ==> {
        &&& m.trend is None
        &&& m.current_sar is None
        &&& m.extreme_point is None
        &&& m.previous_high is Some
        &&& m.previous_low is Some
    })
    &&& (!m.is_first && !m.is_second ==> {
        &&& m.trend is Some
        &&& m.current_sar is Some
        &&& m.extreme_point is Some
        &&& m.previous_high is Some
        &&& m.previous_low is Some
        &&& 0 <= m.current_sar->Some_0 <= PRICE_MAX
        &&& 0 <= m.extreme_point->Some_0 <= PRICE_MAX
        &&& (m.trend == Some(TrendDirection::Up) ==> m.current_sar->Some_0
            <= m.extreme_point->Some_0)
        &&& (m.trend == Some(TrendDirection::Down) ==> m.current_sar->Some_0
            >= m.extreme_point->Some_0)
    })
    &&& match (m.previous_high, m.previous_low) {
        (Some(ph), Some(pl)) => 0 <= pl <= ph <= PRICE_MAX,
        (None, None) => true,
        _ => false,
    }
    &&& match m.previous_close {
        Some(pc) => 0 <= pc <= PRICE_MAX,
        None => true,
    }
    &&& 0 <= m.trend_periods <= usize::MAX
    &&& (spec_sar_config_ok(m.config) ==> m.config.acceleration_start <= m.acceleration_factor
        <= m.config.acceleration_maximum)
}

/// A freshly built state is well formed, whatever the configuration.
pub proof fn lemma_sar_init_wf(config: ParabolicSARConfig)
    ensures
        sar_wf(spec_sar_init(config)),
{
}

/// The step function preserves well-formedness, and the emitted stop and
/// extreme point stay in the price range.
pub proof fn lemma_sar_step_wf(m: SarStateModel, i: ParabolicSARInput)
    requires
        sar_wf(m),
        spec_sar_accepts(m, i),
    ensures
        sar_wf(spec_sar_next(m, i)),
        0 <= spec_sar_output(m, i).sar <= PRICE_MAX,
        0 <= spec_sar_output(m, i).extreme_point <= PRICE_MAX,
        m.config.acceleration_start <= spec_sar_output(m, i).acceleration_factor
            <= m.config.acceleration_maximum,
{
    if m.is_first || m.is_second {
    } else if spec_sar_reversal(m, i) {
    } else {
        let sar = m.current_sar->Some_0;
        let ep = m.extreme_point->Some_0;
        let new_ep = if m.trend->Some_0 == TrendDirection::Up {
            vstd::math::max(ep, i.high as int)
        } else {
            vstd::math::min(ep, i.low as int)
        };
        let af = spec_sar_output(m, i).acceleration_factor;
        lemma_sar_advance_between(sar, af, new_ep);
    }
}

/// The parabolic advance lands between the stop and the extreme point.
pub proof fn lemma_sar_advance_between(sar: int, af: int, ep: int)
    requires
        0 <= af <= SCALE,
    ensures
        ep >= sar ==> sar <= spec_sar_advance(sar, af, ep) <= ep,
        ep < sar ==> ep <= spec_sar_advance(sar, af, ep) <= sar,
{
    if ep >= sar {
        let d = ep - sar;
        vstd::arithmetic::mul::lemma_mul_nonnegative(af, d);
        assert(af * d <= SCALE * d) by (nonlinear_arith)
            requires
                0 <= af <= SCALE,
                0 <= d,
        ;
        assert(d * SCALE == SCALE * d) by (nonlinear_arith);
        crate::common::lemma_div_nonneg_bound(af * d, SCALE as int, d);
    } else {
        let d = sar - ep;
        vstd::arithmetic::mul::lemma_mul_nonnegative(af, d);
        assert(af * d <= SCALE * d) by (nonlinear_arith)
            requires
                0 <= af <= SCALE,
                0 <= d,
        ;
        assert(d * SCALE == SCALE * d) by (nonlinear_arith);
        crate::common::lemma_div_nonneg_bound(af * d, SCALE as int, d);
    }
}


impl ParabolicSARState {
    /// Build the empty state for a configuration.
    pub fn new(config: ParabolicSARConfig) -> (r: ParabolicSARState)
        ensures
            r@ == spec_sar_init(config),
            sar_wf(r@),
    {
        let r = ParabolicSARState {
            config,
            trend: None,
            current_sar: None,
            acceleration_factor: config.acceleration_start,
            extreme_point: None,
            previous_high: None,
            previous_low: None,
            previous_close: None,
            trend_periods: 0,
            is_first: true,
            is_second: false,
        };
        proof {
            assert(r@ =~= spec_sar_init(config));
        }
        r
    }

    /// An owned copy of this state with the same mathematical view.
    pub fn snapshot(&self) -> (r: ParabolicSARState)
        ensures
            r@ == self@,
    {
        let r = ParabolicSARState {
            config: self.config,
            trend: self.trend,
            current_sar: self.current_sar,
            acceleration_factor: self.acceleration_factor,
            extreme_point: self.extreme_point,
            previous_high: self.previous_high,
            previous_low: self.previous_low,
            previous_close: self.previous_close,
            trend_periods: self.trend_periods,
            is_first: self.is_first,
            is_second: self.is_second,
        };
        proof {
            assert(r@ =~= self@);
        }
        r
    }

    /// Number of bars in the current trend.
    pub fn trend_periods(&self) -> (r: usize)
        ensures
            r == self@.trend_periods,
    {
        self.trend_periods
    }
}

/// Parabolic SAR calculator.
///
/// One instance consumes one bar sequence, strictly in order; its view is the
/// mathematical state model that every contract speaks about.
#[derive(Debug, Clone)]
pub struct ParabolicSAR {
    state: ParabolicSARState,
}

impl View for ParabolicSAR {
    type V = SarStateModel;

    closed spec fn view(&self) -> SarStateModel {
        self.state@
    }
}

impl ParabolicSAR {
    /// Create a new Parabolic SAR calculator with the default configuration.
    pub fn new() -> (r: Self)
        ensures
            r@ == spec_sar_init(ParabolicSARConfig::spec_default()),
            sar_wf(r@),
    {
        Self::with_config(ParabolicSARConfig::default())
    }

    /// Create a new calculator with custom acceleration parameters, rejected
    /// exactly when they break `0 < start < maximum <= SCALE` or
    /// `0 < increment <= SCALE`.
    pub fn with_acceleration(start: i64, increment: i64, maximum: i64) -> (r: Result<
        Self,
        ParabolicSARError,
    >)
        ensures
            match r {
                Ok(c) => {
                    &&& spec_sar_config_ok(
                        ParabolicSARConfig {
                            acceleration_start: start,
                            acceleration_increment: increment,
                            acceleration_maximum: maximum,
                        },
                    )
                    &&& c@ == spec_sar_init(
                        ParabolicSARConfig {
                            acceleration_start: start,
                            acceleration_increment: increment,
                            acceleration_maximum: maximum,
                        },
                    )
                    &&& sar_wf(c@)
                },
                Err(e) => {
                    &&& !spec_sar_config_ok(
                        ParabolicSARConfig {
                            acceleration_start: start,
                            acceleration_increment: increment,
                            acceleration_maximum: maximum,
                        },
                    )
                    &&& e == ParabolicSARError::InvalidAcceleration
                },
            },
    {
        let config = ParabolicSARConfig {
            acceleration_start: start,
            acceleration_increment: increment,
            acceleration_maximum: maximum,
        };
        if start <= 0 || increment <= 0 || increment > SCALE || maximum <= start
            || maximum > SCALE {
            return Err(ParabolicSARError::InvalidAcceleration);
        }
        Ok(Self::with_config(config))
    }

    /// Create a new calculator with a custom configuration; validation is
    /// deferred to `calculate`.
    pub fn with_config(config: ParabolicSARConfig) -> (r: Self)
        ensures
            r@ == spec_sar_init(config),
            sar_wf(r@),
    {
        ParabolicSAR { state: ParabolicSARState::new(config) }
    }

    /// Reset the calculator state in place, preserving the configuration.
    pub fn reset(&mut self)
        ensures
            final(self)@ == spec_sar_init(old(self)@.config),
            sar_wf(final(self)@),
    {
        self.state = ParabolicSARState::new(self.state.config);
    }

    /// Current state, for snapshotting.
    pub fn get_state(&self) -> (r: &ParabolicSARState)
        ensures
            r@ == self@,
    {
        &self.state
    }

    /// Restore a previously taken state snapshot.
    pub fn set_state(&mut self, state: ParabolicSARState)
        requires
            sar_wf(state@),
        ensures
            final(self)@ == state@,
    {
        self.state = state;
    }

    /// Current trend direction, once one is established.
    pub fn current_trend(&self) -> (r: Option<TrendDirection>)
        ensures
            r == self@.trend,
    {
        self.state.trend
    }

    /// Current acceleration factor.
    pub fn current_acceleration_factor(&self) -> (r: i64)
        ensures
            r == self@.acceleration_factor,
    {
        self.state.acceleration_factor
    }

    fn validate_input(&self, input: &ParabolicSARInput) -> (r: Result<(), ParabolicSARError>)
        ensures
            match r {
                Ok(()) => spec_sar_input_error(*input) is None,
                Err(e) => spec_sar_input_error(*input) == Some(e),
            },
    {
        if input.high < 0 || input.high > PRICE_MAX || input.low < 0 || input.low > PRICE_MAX {
            return Err(ParabolicSARError::InvalidPrice);
        }
        if input.high < input.low {
            return Err(ParabolicSARError::InvalidHL);
        }
        match input.close {
            Some(close) => {
                if close < 0 || close > PRICE_MAX {
                    return Err(ParabolicSARError::InvalidPrice);
                }
                if close < input.low || close > input.high {
                    return Err(ParabolicSARError::CloseOutOfRange);
                }
            },
            None => {},
        }
        Ok(())
    }

    fn validate_config(&self) -> (r: Result<(), ParabolicSARError>)
        ensures
            match r {
                Ok(()) => spec_sar_config_error(self@.config) is None,
                Err(e) => spec_sar_config_error(self@.config) == Some(e),
            },
    {
        let config = &self.state.config;
        if config.acceleration_start <= 0 || config.acceleration_increment <= 0
            || config.acceleration_increment > SCALE
            || config.acceleration_maximum <= config.acceleration_start
            || config.acceleration_maximum > SCALE {
            return Err(ParabolicSARError::InvalidAcceleration);
        }
        Ok(())
    }

    fn handle_first_calculation(&mut self, input: ParabolicSARInput) -> (r: Result<
        ParabolicSAROutput,
        ParabolicSARError,
    >)
        requires
            old(self)@.is_first,
        ensures
            (final(self)@ == SarStateModel {
                is_first: false,
                is_second: true,
                ..old(self)@
            }),
            (r matches Ok(o) && o@ == spec_sar_output(old(self)@, input)),
    {
        self.state.is_first = false;
        self.state.is_second = true;
        let out = ParabolicSAROutput {
            sar: input.low,
            trend: TrendDirection::Up,
            acceleration_factor: self.state.config.acceleration_start,
            extreme_point: input.high,
            trend_reversal: false,
            trend_periods: 1,
        };
        proof {
            assert(final(self)@ =~= SarStateModel {
                is_first: false,
                is_second: true,
                ..old(self)@
            });
            assert(out@ =~= spec_sar_output(old(self)@, input));
        }
        Ok(out)
    }

    fn handle_second_calculation(&mut self, input: ParabolicSARInput) -> (r: Result<
        ParabolicSAROutput,
        ParabolicSARError,
    >)
        requires
            sar_wf(old(self)@),
            !old(self)@.is_first,
            old(self)@.is_second,
            (spec_sar_input_error(input) is None),
        ensures
            (final(self)@ == SarStateModel {
                previous_high: old(self)@.previous_high,
                previous_low: old(self)@.previous_low,
                previous_close: old(self)@.previous_close,
                ..spec_sar_next(old(self)@, input)
            }),
            (r matches Ok(o) && o@ == spec_sar_output(old(self)@, input)),
    {
        self.state.is_second = false;
        let prev_high = match self.state.previous_high {
            Some(h) => h,
            None => input.high,
        };
        let prev_low = match self.state.previous_low {
            Some(l) => l,
            None => input.low,
        };
        let trend = if input.high > prev_high {
            TrendDirection::Up
        } else {
            TrendDirection::Down
        };
        let (sar, extreme_point) = match trend {
            TrendDirection::Up => (
                prev_low,
                if input.high >= prev_high {
                    input.high
                } else {
                    prev_high
                },
            ),
            TrendDirection::Down => (
                prev_high,
                if input.low <= prev_low {
                    input.low
                } else {
                    prev_low
                },
            ),
        };
        self.state.trend = Some(trend);
        self.state.current_sar = Some(sar);
        self.state.extreme_point = Some(extreme_point);
        self.state.trend_periods = 1;
        let out = ParabolicSAROutput {
            sar,
            trend,
            acceleration_factor: self.state.acceleration_factor,
            extreme_point,
            trend_reversal: false,
            trend_periods: 1,
        };
        proof {
            assert(final(self)@ =~= SarStateModel {
                previous_high: old(self)@.previous_high,
                previous_low: old(self)@.previous_low,
                previous_close: old(self)@.previous_close,
                ..spec_sar_next(old(self)@, input)
            });
            assert(out@ =~= spec_sar_output(old(self)@, input));
        }
        Ok(out)
    }

    fn handle_normal_calculation(&mut self, input: ParabolicSARInput) -> (r: Result<
        ParabolicSAROutput,
        ParabolicSARError,
    >)
        requires
            sar_wf(old(self)@),
            !old(self)@.is_first,
            !old(self)@.is_second,
            spec_sar_accepts(old(self)@, input),
        ensures
            (final(self)@ == SarStateModel {
                previous_high: old(self)@.previous_high,
                previous_low: old(self)@.previous_low,
                previous_close: old(self)@.previous_close,
                ..spec_sar_next(old(self)@, input)
            }),
            (r matches Ok(o) && o@ == spec_sar_output(old(self)@, input)),
    {
        let current_trend = match self.state.trend {
            Some(t) => t,
            None => TrendDirection::Up,
        };
        let current_sar = match self.state.current_sar {
            Some(s) => s,
            None => input.low,
        };
        let current_ep = match self.state.extreme_point {
            Some(e) => e,
            None => input.high,
        };
        let trend_reversal = match current_trend {
            TrendDirection::Up => input.low <= current_sar,
            TrendDirection::Down => input.high >= current_sar,
        };
        if trend_reversal {
            self.handle_trend_reversal(input, current_trend, current_ep)
        } else {
            self.handle_trend_continuation(input, current_trend, current_sar, current_ep)
        }
    }

    fn handle_trend_reversal(
        &mut self,
        input: ParabolicSARInput,
        old_trend: TrendDirection,
        old_ep: i64,
    ) -> (r: Result<ParabolicSAROutput, ParabolicSARError>)
        requires
            sar_wf(old(self)@),
            !old(self)@.is_first,
            !old(self)@.is_second,
            spec_sar_accepts(old(self)@, input),
            spec_sar_reversal(old(self)@, input),
            old_trend == old(self)@.trend->Some_0,
            old_ep == old(self)@.extreme_point->Some_0,
        ensures
            (final(self)@ == SarStateModel {
                previous_high: old(self)@.previous_high,
                previous_low: old(self)@.previous_low,
                previous_close: old(self)@.previous_close,
                ..spec_sar_next(old(self)@, input)
            }),
            (r matches Ok(o) && o@ == spec_sar_output(old(self)@, input)),
    {
        let new_trend = match old_trend {
            TrendDirection::Up => TrendDirection::Down,
            TrendDirection::Down => TrendDirection::Up,
        };
        let new_sar = old_ep;
        let new_ep = match new_trend {
            TrendDirection::Up => input.high,
            TrendDirection::Down => input.low,
        };
        self.state.acceleration_factor = self.state.config.acceleration_start;
        self.state.trend = Some(new_trend);
        self.state.current_sar = Some(new_sar);
        self.state.extreme_point = Some(new_ep);
        self.state.trend_periods = 1;
        let out = ParabolicSAROutput {
            sar: new_sar,
            trend: new_trend,
            acceleration_factor: self.state.acceleration_factor,
            extreme_point: new_ep,
            trend_reversal: true,
            trend_periods: 1,
        };
        proof {
            assert(final(self)@ =~= SarStateModel {
                previous_high: old(self)@.previous_high,
                previous_low: old(self)@.previous_low,
                previous_close: old(self)@.previous_close,
                ..spec_sar_next(old(self)@, input)
            });
            assert(out@ =~= spec_sar_output(old(self)@, input));
        }
        Ok(out)
    }

    fn handle_trend_continuation(
        &mut self,
        input: ParabolicSARInput,
        trend: TrendDirection,
        current_sar: i64,
        current_ep: i64,
    ) -> (r: Result<ParabolicSAROutput, ParabolicSARError>)
        requires
            sar_wf(old(self)@),
            !old(self)@.is_first,
            !old(self)@.is_second,
            spec_sar_accepts(old(self)@, input),
            !spec_sar_reversal(old(self)@, input),
            trend == old(self)@.trend->Some_0,
            current_sar == old(self)@.current_sar->Some_0,
            current_ep == old(self)@.extreme_point->Some_0,
        ensures
            (final(self)@ == SarStateModel {
                previous_high: old(self)@.previous_high,
                previous_low: old(self)@.previous_low,
                previous_close: old(self)@.previous_close,
                ..spec_sar_next(old(self)@, input)
            }),
            (r matches Ok(o) && o@ == spec_sar_output(old(self)@, input)),
    {
        let (new_ep, ep_updated) = match trend {
            TrendDirection::Up => {
                if input.high > current_ep {
                    (input.high, true)
                } else {
                    (current_ep, false)
                }
            },
            TrendDirection::Down => {
                if input.low < current_ep {
                    (input.low, true)
                } else {
                    (current_ep, false)
                }
            },
        };
        if ep_updated {
            let bumped = self.state.acceleration_factor + self.state.config.acceleration_increment;
            self.state.acceleration_factor = if bumped
                <= self.state.config.acceleration_maximum {
                bumped
            } else {
                self.state.config.acceleration_maximum
            };
        }
        let af = self.state.acceleration_factor;
        let raw_sar = if new_ep >= current_sar {
            current_sar + af_fraction(af, new_ep - current_sar)
        } else {
            current_sar - af_fraction(af, current_sar - new_ep)
        };
        let new_sar = match trend {
            TrendDirection::Up => {
                let prev_low = match self.state.previous_low {
                    Some(l) => l,
                    None => input.low,
                };
                let a = if raw_sar <= input.low {
                    raw_sar
                } else {
                    input.low
                };
                if a <= prev_low {
                    a
                } else {
                    prev_low
                }
            },
            TrendDirection::Down => {
                let prev_high = match self.state.previous_high {
                    Some(h) => h,
                    None => input.high,
                };
                let a = if raw_sar >= input.high {
                    raw_sar
                } else {
                    input.high
                };
                if a >= prev_high {
                    a
                } else {
                    prev_high
                }
            },
        };
        self.state.current_sar = Some(new_sar);
        self.state.extreme_point = Some(new_ep);
        if self.state.trend_periods < usize::MAX {
            self.state.trend_periods = self.state.trend_periods + 1;
        }
        let out = ParabolicSAROutput {
            sar: new_sar,
            trend,
            acceleration_factor: self.state.acceleration_factor,
            extreme_point: new_ep,
            trend_reversal: false,
            trend_periods: self.state.trend_periods,
        };
        proof {
            assert(final(self)@ =~= SarStateModel {
                previous_high: old(self)@.previous_high,
                previous_low: old(self)@.previous_low,
                previous_close: old(self)@.previous_close,
                ..spec_sar_next(old(self)@, input)
            });
            assert(out@ =~= spec_sar_output(old(self)@, input));
        }
        Ok(out)
    }

    fn update_state_after_calculation(&mut self, input: ParabolicSARInput)
        ensures
            (final(self)@ == SarStateModel {
                previous_high: Some(input.high as int),
                previous_low: Some(input.low as int),
                previous_close: spec_prev_close_next(old(self)@, input),
                ..old(self)@
            }),
    {
        self.state.previous_high = Some(input.high);
        self.state.previous_low = Some(input.low);
        match input.close {
            Some(close) => {
                self.state.previous_close = Some(close);
            },
            None => {},
        }
        proof {
            assert(final(self)@ =~= SarStateModel {
                previous_high: Some(input.high as int),
                previous_low: Some(input.low as int),
                previous_close: spec_prev_close_next(old(self)@, input),
                ..old(self)@
            });
        }
    }

    /// Consume one bar: validate it and the configuration, then perform one
    /// step of the state machine. On any error the state is left untouched;
    /// on success the state advances by exactly one step of `spec_sar_next`
    /// and the output is `spec_sar_output`, whose stop and extreme point stay
    /// in the price range.
    pub fn calculate(&mut self, input: ParabolicSARInput) -> (r: Result<
        ParabolicSAROutput,
        ParabolicSARError,
    >)
        requires
            sar_wf(old(self)@),
        ensures
            sar_wf(final(self)@),
            match r {
                Ok(o) => {
                    &&& spec_sar_accepts(old(self)@, input)
                    &&& final(self)@ == spec_sar_next(old(self)@, input)
                    &&& o@ == spec_sar_output(old(self)@, input)
                    &&& 0 <= o.sar <= PRICE_MAX
                    &&& 0 <= o.extreme_point <= PRICE_MAX
                },
                Err(e) => {
                    &&& spec_sar_error(old(self)@, input) == Some(e)
                    &&& final(self)@ == old(self)@
                },
            },
    {
        match self.validate_input(&input) {
            Ok(()) => {},
            Err(e) => {
                return Err(e);
            },
        }
        match self.validate_config() {
            Ok(()) => {},
            Err(e) => {
                return Err(e);
            },
        }
        proof {
            lemma_sar_step_wf(old(self)@, input);
        }
        let result = if self.state.is_first {
            self.handle_first_calculation(input)
        } else if self.state.is_second {
            self.handle_second_calculation(input)
        } else {
            self.handle_normal_calculation(input)
        };
        self.update_state_after_calculation(input);
        proof {
            assert(final(self)@ =~= spec_sar_next(old(self)@, input));
        }
        result
    }
}

impl Default for ParabolicSAR {
    fn default() -> (r: Self)
        ensures
            r@ == spec_sar_init(ParabolicSARConfig::spec_default()),
    {
        Self::new()
    }
}


/// Result of folding a bar sequence through the calculator.
#[verifier::ext_equal]
pub struct SarRunModel {
    pub state: SarStateModel,
    pub outputs: Seq<SarOutModel>,
    pub error: Option<ParabolicSARError>,
}

/// Fold a bar sequence through the calculator, stopping at the first error.
pub open spec fn spec_sar_run(m: SarStateModel, inputs: Seq<ParabolicSARInput>) -> SarRunModel
    decreases inputs.len(),
{
    if inputs.len() == 0 {
        SarRunModel { state: m, outputs: Seq::empty(), error: None }
    } else {
        let i = inputs[0];
        if spec_sar_accepts(m, i) {
            let rest = spec_sar_run(spec_sar_next(m, i), inputs.subrange(1, inputs.len() as int));
            SarRunModel {
                state: rest.state,
                outputs: seq![spec_sar_output(m, i)] + rest.outputs,
                error: rest.error,
            }
        } else {
            SarRunModel { state: m, outputs: Seq::empty(), error: spec_sar_error(m, i) }
        }
    }
}

/// Law: in an established uptrend without a reversal, the emitted stop never
/// exceeds the current or the previous bar's low (the clamp invariant), and
/// the acceleration factor never decreases within the trend.
pub proof fn lemma_sar_uptrend_clamp(m: SarStateModel, i: ParabolicSARInput)
    requires
        sar_wf(m),
        spec_sar_accepts(m, i),
        !m.is_first,
        !m.is_second,
        m.trend == Some(TrendDirection::Up),
        !spec_sar_reversal(m, i),
    ensures
        spec_sar_output(m, i).sar <= i.low,
        spec_sar_output(m, i).sar <= m.previous_low->Some_0,
        spec_sar_output(m, i).acceleration_factor >= m.acceleration_factor,
        !spec_sar_output(m, i).trend_reversal,
        spec_sar_output(m, i).trend == TrendDirection::Up,
{
}

/// Law: on a reversal bar the trend flips, the acceleration factor resets to
/// the configured start, the stop becomes the old extreme point, and the
/// trend age restarts at one.
pub proof fn lemma_sar_reversal_resets(m: SarStateModel, i: ParabolicSARInput)
    requires
        sar_wf(m),
        spec_sar_accepts(m, i),
        !m.is_first,
        !m.is_second,
        spec_sar_reversal(m, i),
    ensures
        spec_sar_output(m, i).trend_reversal,
        spec_sar_output(m, i).acceleration_factor == m.config.acceleration_start,
        spec_sar_output(m, i).sar == m.extreme_point->Some_0,
        spec_sar_output(m, i).trend_periods == 1,
        (m.trend == Some(TrendDirection::Up) ==> spec_sar_output(m, i).trend
            == TrendDirection::Down),
        (m.trend == Some(TrendDirection::Down) ==> spec_sar_output(m, i).trend
            == TrendDirection::Up),
{
}

/// Law: the batch fold and the one-bar-at-a-time calculator agree. The k-th
/// output of a run is exactly the output of one step taken on the state that
/// the first k bars produced.
pub proof fn lemma_sar_run_index(m: SarStateModel, bars: Seq<ParabolicSARInput>, k: int)
    requires
        0 <= k < spec_sar_run(m, bars).outputs.len(),
        k < bars.len(),
    ensures
        spec_sar_run(m, bars).outputs[k] == spec_sar_output(
            spec_sar_run(m, bars.take(k)).state,
            bars[k],
        ),
    decreases k,
{
    let tail = bars.subrange(1, bars.len() as int);
    if k == 0 {
        assert(bars.take(0) =~= Seq::<ParabolicSARInput>::empty());
    } else {
        assert(spec_sar_accepts(m, bars[0]));
        lemma_sar_run_index(spec_sar_next(m, bars[0]), tail, k - 1);
        assert(bars.take(k).subrange(1, bars.take(k).len() as int) =~= tail.take(k - 1));
        assert(tail[k - 1] == bars[k]);
        assert(spec_sar_run(m, bars).outputs[k] == spec_sar_run(
            spec_sar_next(m, bars[0]),
            tail,
        ).outputs[k - 1]);
    }
}

/// Law: replaying a bar sequence after a reset reproduces the run of a fresh
/// calculator with the same configuration, output for output.
pub proof fn lemma_sar_reset_replay(
    used: SarStateModel,
    fresh: SarStateModel,
    bars: Seq<ParabolicSARInput>,
)
    requires
        fresh == spec_sar_init(used.config),
    ensures
        spec_sar_run(spec_sar_init(used.config), bars) == spec_sar_run(fresh, bars),
{
}

/// Law: restoring a snapshot reproduces the calculation it was taken before,
/// both the emitted output and the successor state.
pub proof fn lemma_sar_snapshot_roundtrip(
    snapshot: SarStateModel,
    restored: SarStateModel,
    bar: ParabolicSARInput,
)
    requires
        restored == snapshot,
    ensures
        spec_sar_output(restored, bar) == spec_sar_output(snapshot, bar),
        spec_sar_next(restored, bar) == spec_sar_next(snapshot, bar),
{
}

impl ParabolicSAR {
    /// Calculate Parabolic SAR for a batch of bars: a strict left-to-right
    /// fold that stops at the first error, whose partial state survives.
    pub fn calculate_batch(&mut self, inputs: &[ParabolicSARInput]) -> (r: Result<
        Vec<ParabolicSAROutput>,
        ParabolicSARError,
    >)
        requires
            sar_wf(old(self)@),
        ensures
            sar_wf(final(self)@),
            final(self)@ == spec_sar_run(old(self)@, inputs@).state,
            match r {
                Ok(v) => {
                    &&& (spec_sar_run(old(self)@, inputs@).error is None)
                    &&& v@.map_values(|o: ParabolicSAROutput| o@) == spec_sar_run(
                        old(self)@,
                        inputs@,
                    ).outputs
                },
                Err(e) => spec_sar_run(old(self)@, inputs@).error == Some(e),
            },
    {
        let ghost m0 = old(self)@;
        let ghost all = inputs@;
        proof {
            assert(all.subrange(0, all.len() as int) =~= all);
        }
        let mut results: Vec<ParabolicSAROutput> = Vec::new();
        let mut idx: usize = 0;
        while idx < inputs.len()
            invariant
                sar_wf(self@),
                0 <= idx <= inputs.len(),
                m0 == old(self)@,
                all == inputs@,
                spec_sar_run(m0, all).state == spec_sar_run(
                    self@,
                    all.subrange(idx as int, all.len() as int),
                ).state,
                spec_sar_run(m0, all).error == spec_sar_run(
                    self@,
                    all.subrange(idx as int, all.len() as int),
                ).error,
                spec_sar_run(m0, all).outputs == results@.map_values(|o: ParabolicSAROutput| o@)
                    + spec_sar_run(self@, all.subrange(idx as int, all.len() as int)).outputs,
            decreases inputs.len() - idx,
        {
            let ghost pre = self@;
            let ghost rest = all.subrange(idx as int, all.len() as int);
            proof {
                assert(rest.len() > 0);
                assert(rest[0] == all[idx as int]);
                assert(rest.subrange(1, rest.len() as int) =~= all.subrange(
                    idx as int + 1,
                    all.len() as int,
                ));
            }
            match self.calculate(inputs[idx]) {
                Ok(o) => {
                    results.push(o);
                    proof {
                        assert(results@.map_values(|o: ParabolicSAROutput| o@)
                            =~= results@.subrange(0, results@.len() - 1).map_values(
                            |o: ParabolicSAROutput| o@,
                        ).push(o@));
                        assert(spec_sar_run(pre, rest).outputs == seq![
                            spec_sar_output(pre, rest[0]),
                        ] + spec_sar_run(self@, rest.subrange(1, rest.len() as int)).outputs);
                        assert(spec_sar_run(m0, all).outputs == results@.map_values(
                            |o: ParabolicSAROutput| o@,
                        ) + spec_sar_run(
                            self@,
                            all.subrange(idx as int + 1, all.len() as int),
                        ).outputs);
                    }
                },
                Err(e) => {
                    proof {
                        assert(spec_sar_run(pre, rest).error == Some(e));
                        assert(spec_sar_run(pre, rest).state == pre);
                        assert(spec_sar_run(pre, rest).outputs =~= Seq::<SarOutModel>::empty());
                        assert(results@.map_values(|o: ParabolicSAROutput| o@) + Seq::<
                            SarOutModel,
                        >::empty() =~= results@.map_values(|o: ParabolicSAROutput| o@));
                    }
                    return Err(e);
                },
            }
            idx = idx + 1;
        }
        proof {
            let rest = all.subrange(idx as int, all.len() as int);
            assert(rest =~= Seq::<ParabolicSARInput>::empty());
            assert(results@.map_values(|o: ParabolicSAROutput| o@) + Seq::<SarOutModel>::empty()
                =~= results@.map_values(|o: ParabolicSAROutput| o@));
        }
        Ok(results)
    }
}

/// The bar sequence formed from parallel high/low arrays, with no closes.
pub open spec fn spec_sar_inputs(highs: Seq<i64>, lows: Seq<i64>) -> Seq<ParabolicSARInput> {
    Seq::new(highs.len(), |k: int| ParabolicSARInput { high: highs[k], low: lows[k], close: None })
}

/// The configuration that `calculate_parabolic_sar_simple` builds.
pub open spec fn spec_sar_simple_config(
    acceleration_start: Option<i64>,
    acceleration_increment: Option<i64>,
    acceleration_maximum: Option<i64>,
) -> ParabolicSARConfig {
    ParabolicSARConfig {
        acceleration_start: match acceleration_start {
            Some(v) => v,
            None => DEFAULT_ACCELERATION_START,
        },
        acceleration_increment: match acceleration_increment {
            Some(v) => v,
            None => DEFAULT_ACCELERATION_INCREMENT,
        },
        acceleration_maximum: match acceleration_maximum {
            Some(v) => v,
            None => DEFAULT_ACCELERATION_MAXIMUM,
        },
    }
}

/// The run that `calculate_parabolic_sar_simple` performs.
pub open spec fn spec_sar_simple_run(
    highs: Seq<i64>,
    lows: Seq<i64>,
    acceleration_start: Option<i64>,
    acceleration_increment: Option<i64>,
    acceleration_maximum: Option<i64>,
) -> SarRunModel {
    spec_sar_run(
        spec_sar_init(
            spec_sar_simple_config(acceleration_start, acceleration_increment, acceleration_maximum),
        ),
        spec_sar_inputs(highs, lows),
    )
}

/// Calculate the Parabolic SAR level series for high/low arrays without
/// keeping a calculator: equal-length arrays are folded through a fresh
/// calculator with the given (or default) acceleration parameters, and the
/// `sar` field of each output is collected. Length mismatches are rejected;
/// an empty series yields an empty result.
pub fn calculate_parabolic_sar_simple(
    highs: &[i64],
    lows: &[i64],
    acceleration_start: Option<i64>,
    acceleration_increment: Option<i64>,
    acceleration_maximum: Option<i64>,
) -> (r: Result<Vec<i64>, ParabolicSARError>)
    ensures
        match r {
            Ok(v) => {
                &&& highs@.len() == lows@.len()
                &&& (highs@.len() == 0 ==> v@.len() == 0)
                &&& (highs@.len() > 0 ==> spec_sar_simple_run(
                    highs@,
                    lows@,
                    acceleration_start,
                    acceleration_increment,
                    acceleration_maximum,
                ).error is None)
                &&& (highs@.len() > 0 ==> v@.len() == spec_sar_simple_run(
                    highs@,
                    lows@,
                    acceleration_start,
                    acceleration_increment,
                    acceleration_maximum,
                ).outputs.len())
                &&& (forall|k: int| 0 <= k < v@.len() && highs@.len() > 0 ==> v@[k]
                    == #[trigger] spec_sar_simple_run(
                    highs@,
                    lows@,
                    acceleration_start,
                    acceleration_increment,
                    acceleration_maximum,
                ).outputs[k].sar)
            },
            Err(e) => {
                if highs@.len() != lows@.len() {
                    e is InvalidInput
                } else if highs@.len() == 0 {
                    false
                } else {
                    Some(e) == spec_sar_simple_run(
                        highs@,
                        lows@,
                        acceleration_start,
                        acceleration_increment,
                        acceleration_maximum,
                    ).error
                }
            },
        },
{
    if highs.len() != lows.len() {
        return Err(
            ParabolicSARError::InvalidInput("Highs and lows must have same length".to_string()),
        );
    }
    if highs.len() == 0 {
        return Ok(Vec::new());
    }
    let config = ParabolicSARConfig {
        acceleration_start: match acceleration_start {
            Some(v) => v,
            None => DEFAULT_ACCELERATION_START,
        },
        acceleration_increment: match acceleration_increment {
            Some(v) => v,
            None => DEFAULT_ACCELERATION_INCREMENT,
        },
        acceleration_maximum: match acceleration_maximum {
            Some(v) => v,
            None => DEFAULT_ACCELERATION_MAXIMUM,
        },
    };
    let mut sar_calculator = ParabolicSAR::with_config(config);
    let ghost m0 = sar_calculator@;
    let ghost all = spec_sar_inputs(highs@, lows@);
    proof {
        assert(all.subrange(0, all.len() as int) =~= all);
    }
    let len = highs.len();
    let mut results: Vec<i64> = Vec::new();
    let mut idx: usize = 0;
    while idx < len
        invariant
            sar_wf(sar_calculator@),
            0 <= idx <= len,
            len == highs@.len() && len == lows@.len(),
            m0 == spec_sar_init(
                spec_sar_simple_config(
                    acceleration_start,
                    acceleration_increment,
                    acceleration_maximum,
                ),
            ),
            all == spec_sar_inputs(highs@, lows@),
            spec_sar_run(m0, all).error == spec_sar_run(
                sar_calculator@,
                all.subrange(idx as int, all.len() as int),
            ).error,
            results@.len() + spec_sar_run(
                sar_calculator@,
                all.subrange(idx as int, all.len() as int),
            ).outputs.len() == spec_sar_run(m0, all).outputs.len(),
            forall|k: int| 0 <= k < results@.len() ==> results@[k] == #[trigger] spec_sar_run(
                m0,
                all,
            ).outputs[k].sar,
            forall|k: int| results@.len() <= k < spec_sar_run(m0, all).outputs.len()
                ==> #[trigger] spec_sar_run(m0, all).outputs[k] == spec_sar_run(
                sar_calculator@,
                all.subrange(idx as int, all.len() as int),
            ).outputs[k - results@.len()],
        decreases len - idx,
    {
        let ghost pre = sar_calculator@;
        let ghost rest = all.subrange(idx as int, all.len() as int);
        proof {
            assert(rest.len() > 0);
            assert(rest[0] == all[idx as int]);
            assert(rest.subrange(1, rest.len() as int) =~= all.subrange(
                idx as int + 1,
                all.len() as int,
            ));
        }
        let input = ParabolicSARInput { high: highs[idx], low: lows[idx], close: None };
        proof {
            assert(rest[0] == input);
        }
        let output = match sar_calculator.calculate(input) {
            Ok(o) => o,
            Err(e) => {
                proof {
                    assert(spec_sar_run(pre, rest).error == Some(e));
                }
                return Err(e);
            },
        };
        results.push(output.sar);
        proof {
            assert(spec_sar_run(pre, rest).outputs == seq![spec_sar_output(pre, rest[0])]
                + spec_sar_run(
                sar_calculator@,
                rest.subrange(1, rest.len() as int),
            ).outputs);
            assert(results@[results@.len() - 1] == spec_sar_output(pre, rest[0]).sar);
        }
        idx = idx + 1;
    }
    proof {
        let rest = all.subrange(idx as int, all.len() as int);
        assert(rest =~= Seq::<ParabolicSARInput>::empty());
    }
    Ok(results)
}

} // verus!
