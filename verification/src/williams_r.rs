//! Williams %R.
//!
//! A momentum oscillator on an inverted scale: zero when the close sits at
//! the highest high of the lookback window, minus one hundred when it sits at
//! the lowest low. Thresholds and values are in `SCALE` fixed point (so the
//! classic overbought level of -20 is `-20 * SCALE`).

use vstd::prelude::*;
use std::collections::VecDeque;

use crate::common::{
    valid_price, valid_period, scaled_ratio, seq_max, seq_min, lemma_seq_max_extend,
    lemma_seq_min_extend, lemma_seq_max_min_bounds, PRICE_MAX, PERIOD_MAX, HUNDRED, SCALE,
};

verus! {

/// Configuration for Williams %R calculation, thresholds in `SCALE` fixed
/// point on the zero-to-minus-one-hundred scale.
#[derive(Debug, Clone, Copy, PartialEq, Eq, Structural)]
pub struct WilliamsRConfig {
    /// Lookback period for the highest high and lowest low.
    pub period: usize,
    /// Overbought threshold.
    pub overbought: i64,
    /// Oversold threshold.
    pub oversold: i64,
    /// Extreme overbought threshold.
    pub extreme_overbought: i64,
    /// Extreme oversold threshold.
    pub extreme_oversold: i64,
}

/// Default overbought threshold: -20 in `SCALE` fixed point.
pub const DEFAULT_WR_OVERBOUGHT: i64 = -20_000_000;

/// Default oversold threshold: -80 in `SCALE` fixed point.
pub const DEFAULT_WR_OVERSOLD: i64 = -80_000_000;

/// Default extreme overbought threshold: -10 in `SCALE` fixed point.
pub const DEFAULT_WR_EXTREME_OVERBOUGHT: i64 = -10_000_000;

/// Default extreme oversold threshold: -90 in `SCALE` fixed point.
pub const DEFAULT_WR_EXTREME_OVERSOLD: i64 = -90_000_000;

/// The neutral value emitted while the window is short or flat: -50.
pub const WR_NEUTRAL: i64 = -50_000_000;

impl WilliamsRConfig {
    /// The default configuration: period 14, thresholds -20/-80/-10/-90.
    pub open spec fn spec_default() -> WilliamsRConfig {
        WilliamsRConfig {
            period: 14,
            overbought: DEFAULT_WR_OVERBOUGHT,
            oversold: DEFAULT_WR_OVERSOLD,
            extreme_overbought: DEFAULT_WR_EXTREME_OVERBOUGHT,
            extreme_oversold: DEFAULT_WR_EXTREME_OVERSOLD,
        }
    }
}

impl Default for WilliamsRConfig {
    fn default() -> (r: Self)
        ensures
            r == WilliamsRConfig::spec_default(),
    {
        WilliamsRConfig {
            period: 14,
            overbought: DEFAULT_WR_OVERBOUGHT,
            oversold: DEFAULT_WR_OVERSOLD,
            extreme_overbought: DEFAULT_WR_EXTREME_OVERBOUGHT,
            extreme_oversold: DEFAULT_WR_EXTREME_OVERSOLD,
        }
    }
}

/// One high/low/close bar in caller price units.
#[derive(Debug, Clone, Copy, PartialEq, Eq, Structural)]
pub struct WilliamsRInput {
    /// High price.
    pub high: i64,
    /// Low price.
    pub low: i64,
    /// Close price.
    pub close: i64,
}

/// Market condition based on the Williams %R value.
#[derive(Debug, Clone, Copy, PartialEq, Eq, Structural)]
pub enum WilliamsRMarketCondition {
    /// At or above the extreme overbought threshold.
    ExtremeOverbought,
    /// At or above the overbought threshold.
    Overbought,
    /// Between the thresholds.
    Normal,
    /// At or below the oversold threshold.
    Oversold,
    /// At or below the extreme oversold threshold.
    ExtremeOversold,
    /// Not enough data yet.
    Insufficient,
}

/// Output of one Williams %R calculation.
#[derive(Debug, Clone, Copy, PartialEq, Eq, Structural)]
pub struct WilliamsROutput {
    /// Williams %R value, in `[-HUNDRED, 0]`.
    pub williams_r: i64,
    /// Highest high of the lookback window.
    pub highest_high: i64,
    /// Lowest low of the lookback window.
    pub lowest_low: i64,
    /// Current close price.
    pub close: i64,
    /// `highest_high - lowest_low`.
    pub price_range: i64,
    /// Market condition based on the thresholds.
    pub market_condition: WilliamsRMarketCondition,
    /// `williams_r - overbought`.
    pub distance_from_overbought: i64,
    /// `williams_r - oversold`.
    pub distance_from_oversold: i64,
}

/// Mathematical view of the state.
#[verifier::ext_equal]
pub struct WrStateModel {
    pub config: WilliamsRConfig,
    pub highs: Seq<int>,
    pub lows: Seq<int>,
    pub highest_high: int,
    pub lowest_low: int,
    pub has_sufficient_data: bool,
}

/// Mathematical view of one output.
#[verifier::ext_equal]
pub struct WrOutModel {
    pub williams_r: int,
    pub highest_high: int,
    pub lowest_low: int,
    pub close: int,
    pub price_range: int,
    pub market_condition: WilliamsRMarketCondition,
    pub distance_from_overbought: int,
    pub distance_from_oversold: int,
}

impl View for WilliamsROutput {
    type V = WrOutModel;

    open spec fn view(&self) -> WrOutModel {
        WrOutModel {
            williams_r: self.williams_r as int,
            highest_high: self.highest_high as int,
            lowest_low: self.lowest_low as int,
            close: self.close as int,
            price_range: self.price_range as int,
            market_condition: self.market_condition,
            distance_from_overbought: self.distance_from_overbought as int,
            distance_from_oversold: self.distance_from_oversold as int,
        }
    }
}

/// Williams %R calculation state.
#[derive(Debug, Clone)]
pub struct WilliamsRState {
    config: WilliamsRConfig,
    highs: VecDeque<i64>,
    lows: VecDeque<i64>,
    highest_high: i64,
    lowest_low: i64,
    has_sufficient_data: bool,
}

impl View for WilliamsRState {
    type V = WrStateModel;

    closed spec fn view(&self) -> WrStateModel {
        WrStateModel {
            config: self.config,
            highs: self.highs@.map_values(|x: i64| x as int),
            lows: self.lows@.map_values(|x: i64| x as int),
            highest_high: self.highest_high as int,
            lowest_low: self.lowest_low as int,
            has_sufficient_data: self.has_sufficient_data,
        }
    }
}

/// The state a freshly built or reset calculator holds: empty windows and
/// sentinel extremes.
pub open spec fn spec_wr_init(config: WilliamsRConfig) -> WrStateModel {
    WrStateModel {
        config,
        highs: Seq::empty(),
        lows: Seq::empty(),
        highest_high: i64::MIN as int,
        lowest_low: i64::MAX as int,
        has_sufficient_data: false,
    }
}

/// Error types for Williams %R calculation.
#[derive(Debug, Clone, PartialEq)]
pub enum WilliamsRError {
    /// Invalid input data (batch helpers: array length mismatch).
    InvalidInput(String),
    /// Invalid high/low/close relationship.
    InvalidHLC,
    /// Price outside the representable range `[0, PRICE_MAX]`.
    InvalidPrice,
    /// Period outside the accepted range `[1, PERIOD_MAX]`.
    InvalidPeriod,
    /// Thresholds outside `-HUNDRED <= extreme_oversold < oversold <
    /// overbought < 0` and `overbought < extreme_overbought < 0`.
    InvalidThresholds,
    /// Division by zero in calculation (defensive; unreachable here).
    DivisionByZero,
}

/// The error a bar itself provokes, if any.
pub open spec fn spec_wr_input_error(i: WilliamsRInput) -> Option<WilliamsRError> {
    if !valid_price(i.high) || !valid_price(i.low) || !valid_price(i.close) {
        Some(WilliamsRError::InvalidPrice)
    } else if i.high < i.low {
        Some(WilliamsRError::InvalidHLC)
    } else if i.close < i.low || i.close > i.high {
        Some(WilliamsRError::InvalidHLC)
    } else {
        None
    }
}

/// Whether a configuration's thresholds are accepted.
pub open spec fn spec_wr_thresholds_ok(c: WilliamsRConfig) -> bool {
    &&& c.overbought < 0
    &&& c.oversold < c.overbought
    &&& c.extreme_overbought < 0
    &&& c.extreme_overbought > c.overbought
    &&& c.extreme_oversold < c.oversold
    &&& c.extreme_oversold >= -HUNDRED
}

/// The error a configuration provokes, if any.
pub open spec fn spec_wr_config_error(c: WilliamsRConfig) -> Option<WilliamsRError> {
    if !valid_period(c.period) {
        Some(WilliamsRError::InvalidPeriod)
    } else if !spec_wr_thresholds_ok(c) {
        Some(WilliamsRError::InvalidThresholds)
    } else {
        None
    }
}

/// The error one `calculate` call returns, if any: input checks come first.
pub open spec fn spec_wr_error(m: WrStateModel, i: WilliamsRInput) -> Option<WilliamsRError> {
    if spec_wr_input_error(i) is Some {
        spec_wr_input_error(i)
    } else {
        spec_wr_config_error(m.config)
    }
}

/// Whether a bar is accepted in this state.
pub open spec fn spec_wr_accepts(m: WrStateModel, i: WilliamsRInput) -> bool {
    spec_wr_error(m, i) is None
}

/// The high window after a bar: evict the oldest sample once the window is
/// full, then append.
pub open spec fn spec_wr_highs_next(m: WrStateModel, i: WilliamsRInput) -> Seq<int> {
    let h = if m.highs.len() >= m.config.period {
        m.highs.subrange(1, m.highs.len() as int)
    } else {
        m.highs
    };
    h.push(i.high as int)
}

/// The low window after a bar, symmetric to `spec_wr_highs_next`.
pub open spec fn spec_wr_lows_next(m: WrStateModel, i: WilliamsRInput) -> Seq<int> {
    let l = if m.lows.len() >= m.config.period {
        m.lows.subrange(1, m.lows.len() as int)
    } else {
        m.lows
    };
    l.push(i.low as int)
}

/// The Williams %R value of a window: zero at the top of the range, minus
/// one hundred at the bottom, neutral while the window is short or flat.
pub open spec fn spec_wr_value(suff: bool, hh: int, ll: int, close: int) -> int {
    if !suff {
        WR_NEUTRAL as int
    } else if hh - ll == 0 {
        WR_NEUTRAL as int
    } else {
        -(HUNDRED * (hh - close) / (hh - ll))
    }
}

/// Market condition classification of a Williams %R value.
pub open spec fn spec_wr_classify(c: WilliamsRConfig, suff: bool, wr: int) -> WilliamsRMarketCondition {
    if !suff {
        WilliamsRMarketCondition::Insufficient
    } else if wr >= c.extreme_overbought {
        WilliamsRMarketCondition::ExtremeOverbought
    } else if wr >= c.overbought {
        WilliamsRMarketCondition::Overbought
    } else if wr <= c.extreme_oversold {
        WilliamsRMarketCondition::ExtremeOversold
    } else if wr <= c.oversold {
        WilliamsRMarketCondition::Oversold
    } else {
        WilliamsRMarketCondition::Normal
    }
}

/// One full step on an accepted bar: the successor state and the emitted
/// output.
pub open spec fn spec_wr_step(m: WrStateModel, i: WilliamsRInput) -> (WrStateModel, WrOutModel) {
    let highs = spec_wr_highs_next(m, i);
    let lows = spec_wr_lows_next(m, i);
    let hh = seq_max(highs);
    let ll = seq_min(lows);
    let suff = highs.len() >= m.config.period;
    let wr = spec_wr_value(suff, hh, ll, i.close as int);
    let next = WrStateModel {
        config: m.config,
        highs,
        lows,
        highest_high: hh,
        lowest_low: ll,
        has_sufficient_data: suff,
    };
    let out = WrOutModel {
        williams_r: wr,
        highest_high: hh,
        lowest_low: ll,
        close: i.close as int,
        price_range: hh - ll,
        market_condition: spec_wr_classify(m.config, suff, wr),
        distance_from_overbought: wr - m.config.overbought,
        distance_from_oversold: wr - m.config.oversold,
    };
    (next, out)
}

/// The successor state of one accepted bar.
pub open spec fn spec_wr_next(m: WrStateModel, i: WilliamsRInput) -> WrStateModel {
    spec_wr_step(m, i).0
}

/// The output emitted for one accepted bar.
pub open spec fn spec_wr_output(m: WrStateModel, i: WilliamsRInput) -> WrOutModel {
    spec_wr_step(m, i).1
}

/// Well-formedness of a state: paired in-range windows and cached extremes
/// that really are the window extremes.
pub open spec fn wr_wf(m: WrStateModel) -> bool {
    &&& m.highs.len() == m.lows.len()
    &&& m.highs.len() <= m.config.period
    &&& (forall|j: int| 0 <= j < m.highs.len() ==> 0 <= #[trigger] m.lows[j] && m.lows[j]
        <= m.highs[j] && m.highs[j] <= PRICE_MAX)
    &&& (m.highs.len() > 0 ==> m.highest_high == seq_max(m.highs))
    &&& (m.highs.len() > 0 ==> m.lowest_low == seq_min(m.lows))
    &&& (m.highs.len() == 0 ==> m.highest_high == i64::MIN && m.lowest_low == i64::MAX)
}

/// The step function preserves well-formedness, and the emitted value stays
/// on the zero-to-minus-one-hundred scale.
pub proof fn lemma_wr_step_wf(m: WrStateModel, i: WilliamsRInput)
    requires
        wr_wf(m),
        spec_wr_accepts(m, i),
    ensures
        wr_wf(spec_wr_next(m, i)),
        -HUNDRED <= spec_wr_output(m, i).williams_r <= 0,
        0 <= spec_wr_output(m, i).lowest_low,
        spec_wr_output(m, i).lowest_low <= spec_wr_output(m, i).highest_high,
        spec_wr_output(m, i).highest_high <= PRICE_MAX,
{
    let highs = spec_wr_highs_next(m, i);
    let lows = spec_wr_lows_next(m, i);
    assert(forall|j: int| 0 <= j < highs.len() ==> 0 <= #[trigger] lows[j] && lows[j] <= highs[j]
        && highs[j] <= PRICE_MAX) by {
        assert forall|j: int| 0 <= j < highs.len() implies 0 <= #[trigger] lows[j] && lows[j]
            <= highs[j] && highs[j] <= PRICE_MAX by {
            if j == highs.len() - 1 {
            } else if m.highs.len() >= m.config.period {
                assert(highs[j] == m.highs[j + 1]);
                assert(lows[j] == m.lows[j + 1]);
            } else {
                assert(highs[j] == m.highs[j]);
                assert(lows[j] == m.lows[j]);
            }
        }
    }
    lemma_seq_max_min_bounds(highs);
    lemma_seq_max_min_bounds(lows);
    let hh = seq_max(highs);
    let ll = seq_min(lows);
    let wh = choose|j: int| 0 <= j < highs.len() && highs[j] == hh;
    let wl = choose|j: int| 0 <= j < lows.len() && lows[j] == ll;
    assert(ll <= lows[wh] <= highs[wh] == hh);
    assert(0 <= lows[wl] == ll);
    assert(hh <= PRICE_MAX);
    assert(ll <= lows[lows.len() - 1] == i.low as int);
    assert(hh >= highs[highs.len() - 1] == i.high as int);
    let suff = highs.len() >= m.config.period;
    if suff && hh - ll != 0 {
        let num = hh - i.close;
        let den = hh - ll;
        assert(0 <= num <= den);
        assert(HUNDRED * num <= HUNDRED * den) by (nonlinear_arith)
            requires
                0 <= num <= den,
                0 < HUNDRED,
        ;
        vstd::arithmetic::mul::lemma_mul_nonnegative(HUNDRED as int, num);
        crate::common::lemma_div_nonneg_bound(HUNDRED * num, den, HUNDRED as int);
    }
}

impl WilliamsRState {
    /// Build the empty state for a configuration.
    pub fn new(config: WilliamsRConfig) -> (r: WilliamsRState)
        ensures
            r@ == spec_wr_init(config),
            wr_wf(r@),
    {
        let r = WilliamsRState {
            config,
            highs: VecDeque::new(),
            lows: VecDeque::new(),
            highest_high: i64::MIN,
            lowest_low: i64::MAX,
            has_sufficient_data: false,
        };
        proof {
            assert(r@ =~= spec_wr_init(config));
        }
        r
    }

    /// An owned copy of this state with the same mathematical view.
    pub fn snapshot(&self) -> (r: WilliamsRState)
        ensures
            r@ == self@,
    {
        let r = WilliamsRState {
            config: self.config,
            highs: self.highs.clone(),
            lows: self.lows.clone(),
            highest_high: self.highest_high,
            lowest_low: self.lowest_low,
            has_sufficient_data: self.has_sufficient_data,
        };
        proof {
            assert(r.highs@ =~= self.highs@);
            assert(r.lows@ =~= self.lows@);
            assert(r@ =~= self@);
        }
        r
    }
}

/// Williams %R calculator.
#[derive(Debug, Clone)]
pub struct WilliamsR {
    state: WilliamsRState,
}

impl View for WilliamsR {
    type V = WrStateModel;

    closed spec fn view(&self) -> WrStateModel {
        self.state@
    }
}

impl WilliamsR {
    /// Create a new Williams %R calculator with the default configuration.
    pub fn new() -> (r: Self)
        ensures
            r@ == spec_wr_init(WilliamsRConfig::spec_default()),
            wr_wf(r@),
    {
        Self::with_config(WilliamsRConfig::default())
    }

    /// Create a new Williams %R calculator with a custom period, which is
    /// rejected exactly when it is zero.
    pub fn with_period(period: usize) -> (r: Result<Self, WilliamsRError>)
        ensures
            match r {
                Ok(c) => {
                    &&& period != 0
                    &&& c@ == spec_wr_init(
                        WilliamsRConfig { period, ..WilliamsRConfig::spec_default() },
                    )
                    &&& wr_wf(c@)
                },
                Err(e) => period == 0 && e == WilliamsRError::InvalidPeriod,
            },
    {
        if period == 0 {
            return Err(WilliamsRError::InvalidPeriod);
        }
        let config = WilliamsRConfig {
            period,
            overbought: DEFAULT_WR_OVERBOUGHT,
            oversold: DEFAULT_WR_OVERSOLD,
            extreme_overbought: DEFAULT_WR_EXTREME_OVERBOUGHT,
            extreme_oversold: DEFAULT_WR_EXTREME_OVERSOLD,
        };
        Ok(Self::with_config(config))
    }

    /// Create a new Williams %R calculator with a custom period and
    /// thresholds, rejecting a zero period and any threshold set that is not
    /// descending on the zero-to-minus-one-hundred scale.
    pub fn with_thresholds(
        period: usize,
        overbought: i64,
        oversold: i64,
        extreme_overbought: i64,
        extreme_oversold: i64,
    ) -> (r: Result<Self, WilliamsRError>)
        ensures
            match r {
                Ok(c) => {
                    &&& period != 0
                    &&& spec_wr_thresholds_ok(
                        WilliamsRConfig {
                            period,
                            overbought,
                            oversold,
                            extreme_overbought,
                            extreme_oversold,
                        },
                    )
                    &&& c@ == spec_wr_init(
                        WilliamsRConfig {
                            period,
                            overbought,
                            oversold,
                            extreme_overbought,
                            extreme_oversold,
                        },
                    )
                    &&& wr_wf(c@)
                },
                Err(e) => {
                    if period == 0 {
                        e == WilliamsRError::InvalidPeriod
                    } else {
                        e == WilliamsRError::InvalidThresholds && !spec_wr_thresholds_ok(
                            WilliamsRConfig {
                                period,
                                overbought,
                                oversold,
                                extreme_overbought,
                                extreme_oversold,
                            },
                        )
                    }
                },
            },
    {
        if period == 0 {
            return Err(WilliamsRError::InvalidPeriod);
        }
        if overbought >= 0 || oversold >= overbought || extreme_overbought >= 0
            || extreme_overbought <= overbought || extreme_oversold >= oversold
            || extreme_oversold < -HUNDRED {
            return Err(WilliamsRError::InvalidThresholds);
        }
        let config = WilliamsRConfig {
            period,
            overbought,
            oversold,
            extreme_overbought,
            extreme_oversold,
        };
        Ok(Self::with_config(config))
    }

    /// Create a new Williams %R calculator with a custom configuration;
    /// validation is deferred to `calculate`.
    pub fn with_config(config: WilliamsRConfig) -> (r: Self)
        ensures
            r@ == spec_wr_init(config),
            wr_wf(r@),
    {
        WilliamsR { state: WilliamsRState::new(config) }
    }

    /// Reset the calculator state in place, preserving the configuration.
    pub fn reset(&mut self)
        ensures
            final(self)@ == spec_wr_init(old(self)@.config),
            wr_wf(final(self)@),
    {
        self.state = WilliamsRState::new(self.state.config);
    }

    /// Current state, for snapshotting.
    pub fn get_state(&self) -> (r: &WilliamsRState)
        ensures
            r@ == self@,
    {
        &self.state
    }

    /// Restore a previously taken state snapshot.
    pub fn set_state(&mut self, state: WilliamsRState)
        requires
            wr_wf(state@),
        ensures
            final(self)@ == state@,
    {
        self.state = state;
    }

    /// Whether a Williams %R value is at or above the overbought threshold.
    pub fn is_overbought(&self, williams_r: i64) -> (r: bool)
        ensures
            r == (williams_r >= self@.config.overbought),
    {
        williams_r >= self.state.config.overbought
    }

    /// Whether a Williams %R value is at or below the oversold threshold.
    pub fn is_oversold(&self, williams_r: i64) -> (r: bool)
        ensures
            r == (williams_r <= self@.config.oversold),
    {
        williams_r <= self.state.config.oversold
    }

    /// Whether a Williams %R value is in either extreme band.
    pub fn is_extreme_condition(&self, williams_r: i64) -> (r: bool)
        ensures
            r == (williams_r >= self@.config.extreme_overbought || williams_r
                <= self@.config.extreme_oversold),
    {
        williams_r >= self.state.config.extreme_overbought
            || williams_r <= self.state.config.extreme_oversold
    }

    /// Signal strength of a Williams %R value: the distance from the neutral
    /// level as a fraction of one in `SCALE` units, capped at one.
    pub fn signal_strength(&self, williams_r: i64) -> (r: i64)
        ensures
            r == vstd::math::min(
                SCALE as int,
                vstd::math::abs(williams_r - WR_NEUTRAL) as int / 50,
            ),
            0 <= r <= SCALE,
    {
        let d128: i128 = if williams_r >= WR_NEUTRAL {
            (williams_r as i128) - (WR_NEUTRAL as i128)
        } else {
            (WR_NEUTRAL as i128) - (williams_r as i128)
        };
        proof {
            vstd::arithmetic::div_mod::lemma_div_by_multiple(SCALE as int, 50);
        }
        if d128 >= 50 * (SCALE as i128) {
            proof {
                vstd::arithmetic::div_mod::lemma_div_is_ordered(
                    50 * (SCALE as int),
                    d128 as int,
                    50,
                );
            }
            return SCALE;
        }
        let distance: i64 = d128 as i64;
        proof {
            vstd::arithmetic::div_mod::lemma_div_pos_is_pos(distance as int, 50);
            vstd::arithmetic::div_mod::lemma_div_is_ordered(
                distance as int,
                50 * (SCALE as int),
                50,
            );
        }
        let strength = distance / 50;
        if strength >= SCALE {
            SCALE
        } else {
            strength
        }
    }

    fn validate_input(&self, input: &WilliamsRInput) -> (r: Result<(), WilliamsRError>)
        ensures
            match r {
                Ok(()) => spec_wr_input_error(*input) is None,
                Err(e) => spec_wr_input_error(*input) == Some(e),
            },
    {
        if input.high < 0 || input.high > PRICE_MAX || input.low < 0 || input.low > PRICE_MAX
            || input.close < 0 || input.close > PRICE_MAX {
            return Err(WilliamsRError::InvalidPrice);
        }
        if input.high < input.low {
            return Err(WilliamsRError::InvalidHLC);
        }
        if input.close < input.low || input.close > input.high {
            return Err(WilliamsRError::InvalidHLC);
        }
        Ok(())
    }

    fn validate_config(&self) -> (r: Result<(), WilliamsRError>)
        ensures
            match r {
                Ok(()) => spec_wr_config_error(self@.config) is None,
                Err(e) => spec_wr_config_error(self@.config) == Some(e),
            },
    {
        if self.state.config.period == 0 || self.state.config.period > PERIOD_MAX {
            return Err(WilliamsRError::InvalidPeriod);
        }
        let config = &self.state.config;
        if config.overbought >= 0 || config.oversold >= config.overbought
            || config.extreme_overbought >= 0 || config.extreme_overbought <= config.overbought
            || config.extreme_oversold >= config.oversold || config.extreme_oversold < -HUNDRED {
            return Err(WilliamsRError::InvalidThresholds);
        }
        Ok(())
    }

    /// Consume one bar. On any error the state is left untouched; on success
    /// the state advances by exactly one step of `spec_wr_next` and the
    /// output is `spec_wr_output`, whose value lies in `[-HUNDRED, 0]`.
    pub fn calculate(&mut self, input: WilliamsRInput) -> (r: Result<
        WilliamsROutput,
        WilliamsRError,
    >)
        requires
            wr_wf(old(self)@),
        ensures
            wr_wf(final(self)@),
            match r {
                Ok(o) => {
                    &&& spec_wr_accepts(old(self)@, input)
                    &&& final(self)@ == spec_wr_next(old(self)@, input)
                    &&& o@ == spec_wr_output(old(self)@, input)
                    &&& -HUNDRED <= o.williams_r <= 0
                },
                Err(e) => {
                    &&& spec_wr_error(old(self)@, input) == Some(e)
                    &&& final(self)@ == old(self)@
                },
            },
    {
        match self.validate_input(&input) {
            Ok(()) => {},
            Err(e) => {
                return Err(e);
            },
        }
        match self.validate_config() {
            Ok(()) => {},
            Err(e) => {
                return Err(e);
            },
        }
        let ghost m0 = old(self)@;
        proof {
            lemma_wr_step_wf(m0, input);
        }
        // Update the rolling windows.
        if self.state.highs.len() >= self.state.config.period {
            self.state.highs.pop_front();
            self.state.lows.pop_front();
        }
        self.state.highs.push_back(input.high);
        self.state.lows.push_back(input.low);
        proof {
            assert(self.state.highs@.map_values(|x: i64| x as int) =~= spec_wr_highs_next(
                m0,
                input,
            ));
            assert(self.state.lows@.map_values(|x: i64| x as int) =~= spec_wr_lows_next(m0, input));
        }
        let ghost highs_m = spec_wr_highs_next(m0, input);
        let ghost lows_m = spec_wr_lows_next(m0, input);
        // Recompute the window extremes.
        let n = self.state.highs.len();
        let mut highest_high = self.state.highs[0];
        let mut lowest_low = self.state.lows[0];
        let mut j: usize = 1;
        proof {
            assert(highs_m.subrange(0, 1) =~= seq![highs_m[0]]);
            assert(lows_m.subrange(0, 1) =~= seq![lows_m[0]]);
        }
        while j < n
            invariant
                1 <= j <= n,
                n == self.state.highs.len(),
                self.state.highs@.len() == self.state.lows@.len(),
                highs_m == self.state.highs@.map_values(|x: i64| x as int),
                lows_m == self.state.lows@.map_values(|x: i64| x as int),
                highest_high == seq_max(highs_m.subrange(0, j as int)),
                lowest_low == seq_min(lows_m.subrange(0, j as int)),
            decreases n - j,
        {
            proof {
                lemma_seq_max_extend(highs_m, j as int);
                lemma_seq_min_extend(lows_m, j as int);
            }
            let h = self.state.highs[j];
            if h > highest_high {
                highest_high = h;
            }
            let l = self.state.lows[j];
            if l < lowest_low {
                lowest_low = l;
            }
            j = j + 1;
        }
        proof {
            assert(highs_m.subrange(0, n as int) =~= highs_m);
            assert(lows_m.subrange(0, n as int) =~= lows_m);
        }
        self.state.highest_high = highest_high;
        self.state.lowest_low = lowest_low;
        self.state.has_sufficient_data = n >= self.state.config.period;
        // Compute the oscillator value.
        let williams_r: i64 = if !self.state.has_sufficient_data {
            WR_NEUTRAL
        } else {
            let price_range = highest_high - lowest_low;
            if price_range == 0 {
                WR_NEUTRAL
            } else {
                -scaled_ratio(highest_high - input.close, price_range)
            }
        };
        let market_condition = if !self.state.has_sufficient_data {
            WilliamsRMarketCondition::Insufficient
        } else if williams_r >= self.state.config.extreme_overbought {
            WilliamsRMarketCondition::ExtremeOverbought
        } else if williams_r >= self.state.config.overbought {
            WilliamsRMarketCondition::Overbought
        } else if williams_r <= self.state.config.extreme_oversold {
            WilliamsRMarketCondition::ExtremeOversold
        } else if williams_r <= self.state.config.oversold {
            WilliamsRMarketCondition::Oversold
        } else {
            WilliamsRMarketCondition::Normal
        };
        let out = WilliamsROutput {
            williams_r,
            highest_high,
            lowest_low,
            close: input.close,
            price_range: highest_high - lowest_low,
            market_condition,
            distance_from_overbought: williams_r - self.state.config.overbought,
            distance_from_oversold: williams_r - self.state.config.oversold,
        };
        proof {
            assert(final(self)@ =~= spec_wr_next(m0, input));
            assert(out@ =~= spec_wr_output(m0, input));
        }
        Ok(out)
    }
}

impl Default for WilliamsR {
    fn default() -> (r: Self)
        ensures
            r@ == spec_wr_init(WilliamsRConfig::spec_default()),
    {
        Self::new()
    }
}

/// Result of folding a bar sequence through the calculator.
#[verifier::ext_equal]
pub struct WrRunModel {
    pub state: WrStateModel,
    pub outputs: Seq<WrOutModel>,
    pub error: Option<WilliamsRError>,
}

/// Fold a bar sequence through the calculator, stopping at the first error.
pub open spec fn spec_wr_run(m: WrStateModel, inputs: Seq<WilliamsRInput>) -> WrRunModel
    decreases inputs.len(),
{
    if inputs.len() == 0 {
        WrRunModel { state: m, outputs: Seq::empty(), error: None }
    } else {
        let i = inputs[0];
        if spec_wr_accepts(m, i) {
            let rest = spec_wr_run(spec_wr_next(m, i), inputs.subrange(1, inputs.len() as int));
            WrRunModel {
                state: rest.state,
                outputs: seq![spec_wr_output(m, i)] + rest.outputs,
                error: rest.error,
            }
        } else {
            WrRunModel { state: m, outputs: Seq::empty(), error: spec_wr_error(m, i) }
        }
    }
}

impl WilliamsR {
    /// Calculate Williams %R for a batch of bars: a strict left-to-right fold
    /// that stops at the first error, whose partial state survives.
    pub fn calculate_batch(&mut self, inputs: &[WilliamsRInput]) -> (r: Result<
        Vec<WilliamsROutput>,
        WilliamsRError,
    >)
        requires
            wr_wf(old(self)@),
        ensures
            wr_wf(final(self)@),
            final(self)@ == spec_wr_run(old(self)@, inputs@).state,
            match r {
                Ok(v) => {
                    &&& (spec_wr_run(old(self)@, inputs@).error is None)
                    &&& v@.map_values(|o: WilliamsROutput| o@) == spec_wr_run(
                        old(self)@,
                        inputs@,
                    ).outputs
                },
                Err(e) => spec_wr_run(old(self)@, inputs@).error == Some(e),
            },
    {
        let ghost m0 = old(self)@;
        let ghost all = inputs@;
        proof {
            assert(all.subrange(0, all.len() as int) =~= all);
        }
        let mut results: Vec<WilliamsROutput> = Vec::new();
        let mut idx: usize = 0;
        while idx < inputs.len()
            invariant
                wr_wf(self@),
                0 <= idx <= inputs.len(),
                m0 == old(self)@,
                all == inputs@,
                spec_wr_run(m0, all).state == spec_wr_run(
                    self@,
                    all.subrange(idx as int, all.len() as int),
                ).state,
                spec_wr_run(m0, all).error == spec_wr_run(
                    self@,
                    all.subrange(idx as int, all.len() as int),
                ).error,
                spec_wr_run(m0, all).outputs == results@.map_values(|o: WilliamsROutput| o@)
                    + spec_wr_run(self@, all.subrange(idx as int, all.len() as int)).outputs,
            decreases inputs.len() - idx,
        {
            let ghost pre = self@;
            let ghost rest = all.subrange(idx as int, all.len() as int);
            proof {
                assert(rest.len() > 0);
                assert(rest[0] == all[idx as int]);
                assert(rest.subrange(1, rest.len() as int) =~= all.subrange(
                    idx as int + 1,
                    all.len() as int,
                ));
            }
            match self.calculate(inputs[idx]) {
                Ok(o) => {
                    results.push(o);
                    proof {
                        assert(results@.map_values(|o: WilliamsROutput| o@) =~= results@.subrange(
                            0,
                            results@.len() - 1,
                        ).map_values(|o: WilliamsROutput| o@).push(o@));
                        assert(spec_wr_run(pre, rest).outputs == seq![
                            spec_wr_output(pre, rest[0]),
                        ] + spec_wr_run(self@, rest.subrange(1, rest.len() as int)).outputs);
                        assert(spec_wr_run(m0, all).outputs == results@.map_values(
                            |o: WilliamsROutput| o@,
                        ) + spec_wr_run(
                            self@,
                            all.subrange(idx as int + 1, all.len() as int),
                        ).outputs);
                    }
                },
                Err(e) => {
                    proof {
                        assert(spec_wr_run(pre, rest).error == Some(e));
                        assert(spec_wr_run(pre, rest).state == pre);
                        assert(spec_wr_run(pre, rest).outputs =~= Seq::<WrOutModel>::empty());
                        assert(results@.map_values(|o: WilliamsROutput| o@) + Seq::<
                            WrOutModel,
                        >::empty() =~= results@.map_values(|o: WilliamsROutput| o@));
                    }
                    return Err(e);
                },
            }
            idx = idx + 1;
        }
        proof {
            let rest = all.subrange(idx as int, all.len() as int);
            assert(rest =~= Seq::<WilliamsRInput>::empty());
            assert(results@.map_values(|o: WilliamsROutput| o@) + Seq::<WrOutModel>::empty()
                =~= results@.map_values(|o: WilliamsROutput| o@));
        }
        Ok(results)
    }
}

/// The bar sequence formed from parallel high/low/close arrays.
pub open spec fn spec_wr_inputs(highs: Seq<i64>, lows: Seq<i64>, closes: Seq<i64>) -> Seq<
    WilliamsRInput,
> {
    Seq::new(
        highs.len(),
        |k: int| WilliamsRInput { high: highs[k], low: lows[k], close: closes[k] },
    )
}

/// The run that `calculate_williams_r_simple` performs.
pub open spec fn spec_wr_simple_run(
    highs: Seq<i64>,
    lows: Seq<i64>,
    closes: Seq<i64>,
    period: usize,
) -> WrRunModel {
    spec_wr_run(
        spec_wr_init(WilliamsRConfig { period, ..WilliamsRConfig::spec_default() }),
        spec_wr_inputs(highs, lows, closes),
    )
}

/// Calculate the Williams %R value series for high/low/close arrays without
/// keeping a calculator: equal-length arrays are folded through a fresh
/// calculator with the given period, and the `williams_r` field of each
/// output is collected. Length mismatches are rejected; an empty series
/// yields an empty result.
pub fn calculate_williams_r_simple(
    highs: &[i64],
    lows: &[i64],
    closes: &[i64],
    period: usize,
) -> (r: Result<Vec<i64>, WilliamsRError>)
    ensures
        match r {
            Ok(v) => {
                &&& (highs@.len() == lows@.len() && highs@.len() == closes@.len())
                &&& (highs@.len() == 0 ==> v@.len() == 0)
                &&& (highs@.len() > 0 ==> period != 0)
                &&& (highs@.len() > 0 ==> spec_wr_simple_run(
                    highs@,
                    lows@,
                    closes@,
                    period,
                ).error is None)
                &&& (highs@.len() > 0 ==> v@.len() == spec_wr_simple_run(
                    highs@,
                    lows@,
                    closes@,
                    period,
                ).outputs.len())
                &&& (forall|k: int| 0 <= k < v@.len() && highs@.len() > 0 ==> v@[k]
                    == #[trigger] spec_wr_simple_run(
                    highs@,
                    lows@,
                    closes@,
                    period,
                ).outputs[k].williams_r)
            },
            Err(e) => {
                if highs@.len() != lows@.len() || highs@.len() != closes@.len() {
                    e is InvalidInput
                } else if highs@.len() == 0 {
                    false
                } else if period == 0 {
                    e == WilliamsRError::InvalidPeriod
                } else {
                    Some(e) == spec_wr_simple_run(highs@, lows@, closes@, period).error
                }
            },
        },
{
    let len = highs.len();
    if len != lows.len() || len != closes.len() {
        return Err(
            WilliamsRError::InvalidInput("All price arrays must have same length".to_string()),
        );
    }
    if len == 0 {
        return Ok(Vec::new());
    }
    let mut williams_r_calculator = match WilliamsR::with_period(period) {
        Ok(c) => c,
        Err(e) => {
            return Err(e);
        },
    };
    let ghost m0 = williams_r_calculator@;
    let ghost all = spec_wr_inputs(highs@, lows@, closes@);
    proof {
        assert(all.subrange(0, all.len() as int) =~= all);
    }
    let mut results: Vec<i64> = Vec::new();
    let mut idx: usize = 0;
    while idx < len
        invariant
            wr_wf(williams_r_calculator@),
            0 <= idx <= len,
            len == highs@.len() && len == lows@.len() && len == closes@.len(),
            period != 0,
            m0 == spec_wr_init(WilliamsRConfig { period, ..WilliamsRConfig::spec_default() }),
            all == spec_wr_inputs(highs@, lows@, closes@),
            spec_wr_run(m0, all).error == spec_wr_run(
                williams_r_calculator@,
                all.subrange(idx as int, all.len() as int),
            ).error,
            results@.len() + spec_wr_run(
                williams_r_calculator@,
                all.subrange(idx as int, all.len() as int),
            ).outputs.len() == spec_wr_run(m0, all).outputs.len(),
            forall|k: int| 0 <= k < results@.len() ==> results@[k] == #[trigger] spec_wr_run(
                m0,
                all,
            ).outputs[k].williams_r,
            forall|k: int| results@.len() <= k < spec_wr_run(m0, all).outputs.len()
                ==> #[trigger] spec_wr_run(m0, all).outputs[k] == spec_wr_run(
                williams_r_calculator@,
                all.subrange(idx as int, all.len() as int),
            ).outputs[k - results@.len()],
        decreases len - idx,
    {
        let ghost pre = williams_r_calculator@;
        let ghost rest = all.subrange(idx as int, all.len() as int);
        proof {
            assert(rest.len() > 0);
            assert(rest[0] == all[idx as int]);
            assert(rest.subrange(1, rest.len() as int) =~= all.subrange(
                idx as int + 1,
                all.len() as int,
            ));
        }
        let input = WilliamsRInput { high: highs[idx], low: lows[idx], close: closes[idx] };
        proof {
            assert(rest[0] == input);
        }
        let output = match williams_r_calculator.calculate(input) {
            Ok(o) => o,
            Err(e) => {
                proof {
                    assert(spec_wr_run(pre, rest).error == Some(e));
                }
                return Err(e);
            },
        };
        results.push(output.williams_r);
        proof {
            assert(spec_wr_run(pre, rest).outputs == seq![spec_wr_output(pre, rest[0])]
                + spec_wr_run(
                williams_r_calculator@,
                rest.subrange(1, rest.len() as int),
            ).outputs);
            assert(results@[results@.len() - 1] == spec_wr_output(pre, rest[0]).williams_r);
        }
        idx = idx + 1;
    }
    proof {
        let rest = all.subrange(idx as int, all.len() as int);
        assert(rest =~= Seq::<WilliamsRInput>::empty());
    }
    Ok(results)
}

} // verus!
