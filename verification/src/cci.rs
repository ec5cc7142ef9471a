//! Commodity Channel Index (CCI).
//!
//! A momentum oscillator over a rolling window of typical prices
//! `(high + low + close) / 3`: the distance of the current typical price from
//! the window's average, normalized by fifteen thousandths of the mean
//! absolute deviation — in integers, `200 * SCALE * |tp - sma| / (3 * md)`,
//! carried in a 128-bit value because the ratio is unbounded as the mean
//! deviation shrinks. Thresholds are in `SCALE` fixed point.

use vstd::prelude::*;
use std::collections::VecDeque;

use crate::common::{
    valid_price, valid_period, div_nonneg, seq_sum, lemma_seq_sum_extend, lemma_seq_sum_bounds,
    lemma_seq_sum_pop_front, seq_dev_sum, lemma_seq_dev_sum_extend, lemma_seq_dev_sum_bounds,
    lemma_div_nonneg_bound, PRICE_MAX, PERIOD_MAX, SCALE,
};

verus! {

/// Configuration for CCI calculation, thresholds in `SCALE` fixed point.
#[derive(Debug, Clone, Copy, PartialEq, Eq, Structural)]
pub struct CCIConfig {
    /// Rolling-window length.
    pub period: usize,
    /// Overbought threshold.
    pub overbought: i64,
    /// Oversold threshold.
    pub oversold: i64,
    /// Extreme overbought threshold.
    pub extreme_overbought: i64,
    /// Extreme oversold threshold.
    pub extreme_oversold: i64,
}

/// Default overbought threshold: 100 in `SCALE` fixed point.
pub const DEFAULT_CCI_OVERBOUGHT: i64 = 100_000_000;

/// Default oversold threshold: -100 in `SCALE` fixed point.
pub const DEFAULT_CCI_OVERSOLD: i64 = -100_000_000;

/// Default extreme overbought threshold: 200 in `SCALE` fixed point.
pub const DEFAULT_CCI_EXTREME_OVERBOUGHT: i64 = 200_000_000;

/// Default extreme oversold threshold: -200 in `SCALE` fixed point.
pub const DEFAULT_CCI_EXTREME_OVERSOLD: i64 = -200_000_000;

impl CCIConfig {
    /// The default configuration: period 20, thresholds plus and minus one
    /// and two hundred.
    pub open spec fn spec_default() -> CCIConfig {
        CCIConfig {
            period: 20,
            overbought: DEFAULT_CCI_OVERBOUGHT,
            oversold: DEFAULT_CCI_OVERSOLD,
            extreme_overbought: DEFAULT_CCI_EXTREME_OVERBOUGHT,
            extreme_oversold: DEFAULT_CCI_EXTREME_OVERSOLD,
        }
    }
}

impl Default for CCIConfig {
    fn default() -> (r: Self)
        ensures
            r == CCIConfig::spec_default(),
    {
        CCIConfig {
            period: 20,
            overbought: DEFAULT_CCI_OVERBOUGHT,
            oversold: DEFAULT_CCI_OVERSOLD,
            extreme_overbought: DEFAULT_CCI_EXTREME_OVERBOUGHT,
            extreme_oversold: DEFAULT_CCI_EXTREME_OVERSOLD,
        }
    }
}

/// One high/low/close bar in caller price units.
#[derive(Debug, Clone, Copy, PartialEq, Eq, Structural)]
pub struct CCIInput {
    /// High price.
    pub high: i64,
    /// Low price.
    pub low: i64,
    /// Close price.
    pub close: i64,
}

/// Market condition based on the CCI value.
#[derive(Debug, Clone, Copy, PartialEq, Eq, Structural)]
pub enum CCIMarketCondition {
    /// At or above the extreme overbought threshold.
    ExtremeOverbought,
    /// At or above the overbought threshold.
    Overbought,
    /// Between the thresholds.
    Normal,
    /// At or below the oversold threshold.
    Oversold,
    /// At or below the extreme oversold threshold.
    ExtremeOversold,
    /// Not enough data yet.
    Insufficient,
}

/// Output of one CCI calculation.
#[derive(Debug, Clone, Copy, PartialEq, Eq, Structural)]
pub struct CCIOutput {
    /// Commodity Channel Index value, in `SCALE` fixed point.
    pub cci: i128,
    /// Current typical price.
    pub typical_price: i64,
    /// Rolling average of typical prices.
    pub sma_tp: i64,
    /// Mean absolute deviation of the window from that average.
    pub mean_deviation: i64,
    /// Market condition based on the thresholds.
    pub market_condition: CCIMarketCondition,
    /// Absolute CCI value.
    pub distance_from_zero: i128,
}

/// Mathematical view of the state.
#[verifier::ext_equal]
pub struct CciStateModel {
    pub config: CCIConfig,
    pub typical_prices: Seq<int>,
    pub tp_sum: int,
    pub has_sufficient_data: bool,
}

/// Mathematical view of one output.
#[verifier::ext_equal]
pub struct CciOutModel {
    pub cci: int,
    pub typical_price: int,
    pub sma_tp: int,
    pub mean_deviation: int,
    pub market_condition: CCIMarketCondition,
    pub distance_from_zero: int,
}

impl View for CCIOutput {
    type V = CciOutModel;

    open spec fn view(&self) -> CciOutModel {
        CciOutModel {
            cci: self.cci as int,
            typical_price: self.typical_price as int,
            sma_tp: self.sma_tp as int,
            mean_deviation: self.mean_deviation as int,
            market_condition: self.market_condition,
            distance_from_zero: self.distance_from_zero as int,
        }
    }
}

/// CCI calculation state.
#[derive(Debug, Clone)]
pub struct CCIState {
    config: CCIConfig,
    typical_prices: VecDeque<i64>,
    tp_sum: i64,
    has_sufficient_data: bool,
}

impl View for CCIState {
    type V = CciStateModel;

    closed spec fn view(&self) -> CciStateModel {
        CciStateModel {
            config: self.config,
            typical_prices: self.typical_prices@.map_values(|x: i64| x as int),
            tp_sum: self.tp_sum as int,
            has_sufficient_data: self.has_sufficient_data,
        }
    }
}

/// The state a freshly built or reset calculator holds.
pub open spec fn spec_cci_init(config: CCIConfig) -> CciStateModel {
    CciStateModel { config, typical_prices: Seq::empty(), tp_sum: 0, has_sufficient_data: false }
}

/// Error types for CCI calculation.
#[derive(Debug, Clone, PartialEq)]
pub enum CCIError {
    /// Invalid input data (batch helpers: array length mismatch).
    InvalidInput(String),
    /// Invalid high/low/close relationship.
    InvalidHLC,
    /// Price outside the representable range `[0, PRICE_MAX]`.
    InvalidPrice,
    /// Period outside the accepted range `[1, PERIOD_MAX]`.
    InvalidPeriod,
    /// Thresholds not ordered `extreme_oversold < oversold < overbought <
    /// extreme_overbought`.
    InvalidThresholds,
    /// Division by zero in calculation (defensive; unreachable here).
    DivisionByZero,
}

/// The error a bar itself provokes, if any.
pub open spec fn spec_cci_input_error(i: CCIInput) -> Option<CCIError> {
    if !valid_price(i.high) || !valid_price(i.low) || !valid_price(i.close) {
        Some(CCIError::InvalidPrice)
    } else if i.high < i.low {
        Some(CCIError::InvalidHLC)
    } else if i.close < i.low || i.close > i.high {
        Some(CCIError::InvalidHLC)
    } else {
        None
    }
}

/// Whether a configuration's thresholds are accepted.
pub open spec fn spec_cci_thresholds_ok(c: CCIConfig) -> bool {
    &&& c.overbought > c.oversold
    &&& c.extreme_overbought > c.overbought
    &&& c.extreme_oversold < c.oversold
}

/// The error a configuration provokes, if any.
pub open spec fn spec_cci_config_error(c: CCIConfig) -> Option<CCIError> {
    if !valid_period(c.period) {
        Some(CCIError::InvalidPeriod)
    } else if !spec_cci_thresholds_ok(c) {
        Some(CCIError::InvalidThresholds)
    } else {
        None
    }
}

/// The error one `calculate` call returns, if any: input checks come first.
pub open spec fn spec_cci_error(m: CciStateModel, i: CCIInput) -> Option<CCIError> {
    if spec_cci_input_error(i) is Some {
        spec_cci_input_error(i)
    } else {
        spec_cci_config_error(m.config)
    }
}

/// Whether a bar is accepted in this state.
pub open spec fn spec_cci_accepts(m: CciStateModel, i: CCIInput) -> bool {
    spec_cci_error(m, i) is None
}

/// The typical price of a bar, rounded toward minus infinity.
pub open spec fn spec_typical_price(i: CCIInput) -> int {
    (i.high + i.low + i.close) / 3
}

/// The typical-price window after a bar: evict the oldest entry once the
/// window is full, then append.
pub open spec fn spec_cci_tps_next(m: CciStateModel, i: CCIInput) -> Seq<int> {
    let t = if m.typical_prices.len() >= m.config.period {
        m.typical_prices.subrange(1, m.typical_prices.len() as int)
    } else {
        m.typical_prices
    };
    t.push(spec_typical_price(i))
}

/// The CCI value: the signed scaled ratio of the deviation of the typical
/// price from the window average over fifteen thousandths of the mean
/// deviation; zero when the mean deviation is zero.
pub open spec fn spec_cci_value(tp: int, sma: int, md: int) -> int {
    if md == 0 {
        0
    } else if tp >= sma {
        200 * SCALE * (tp - sma) / (3 * md)
    } else {
        -(200 * SCALE * (sma - tp) / (3 * md))
    }
}

/// Market condition classification of a CCI value.
pub open spec fn spec_cci_classify(c: CCIConfig, suff: bool, cci: int) -> CCIMarketCondition {
    if !suff {
        CCIMarketCondition::Insufficient
    } else if cci >= c.extreme_overbought {
        CCIMarketCondition::ExtremeOverbought
    } else if cci >= c.overbought {
        CCIMarketCondition::Overbought
    } else if cci <= c.extreme_oversold {
        CCIMarketCondition::ExtremeOversold
    } else if cci <= c.oversold {
        CCIMarketCondition::Oversold
    } else {
        CCIMarketCondition::Normal
    }
}

/// One full step on an accepted bar: the successor state and the emitted
/// output. Until the window fills, the output is the neutral zero with the
/// bar's own typical price as the average.
pub open spec fn spec_cci_step(m: CciStateModel, i: CCIInput) -> (CciStateModel, CciOutModel) {
    let tp = spec_typical_price(i);
    let tps = spec_cci_tps_next(m, i);
    let suff = tps.len() >= m.config.period;
    let next = CciStateModel {
        config: m.config,
        typical_prices: tps,
        tp_sum: seq_sum(tps),
        has_sufficient_data: suff,
    };
    let sma = if suff {
        seq_sum(tps) / (m.config.period as int)
    } else {
        tp
    };
    let md = if suff {
        seq_dev_sum(tps, sma) / (m.config.period as int)
    } else {
        0
    };
    let cci = if suff {
        spec_cci_value(tp, sma, md)
    } else {
        0
    };
    let out = CciOutModel {
        cci,
        typical_price: tp,
        sma_tp: sma,
        mean_deviation: md,
        market_condition: spec_cci_classify(m.config, suff, cci),
        distance_from_zero: vstd::math::abs(cci) as int,
    };
    (next, out)
}

/// The successor state of one accepted bar.
pub open spec fn spec_cci_next(m: CciStateModel, i: CCIInput) -> CciStateModel {
    spec_cci_step(m, i).0
}

/// The output emitted for one accepted bar.
pub open spec fn spec_cci_output(m: CciStateModel, i: CCIInput) -> CciOutModel {
    spec_cci_step(m, i).1
}

/// Well-formedness of a state: an in-range window whose running sum is the
/// window's sum.
pub open spec fn cci_wf(m: CciStateModel) -> bool {
    &&& m.typical_prices.len() <= m.config.period
    &&& (forall|j: int| 0 <= j < m.typical_prices.len() ==> 0 <= #[trigger] m.typical_prices[j]
        <= PRICE_MAX)
    &&& m.tp_sum == seq_sum(m.typical_prices)
}

impl CCIState {
    /// Build the empty state for a configuration.
    pub fn new(config: CCIConfig) -> (r: CCIState)
        ensures
            r@ == spec_cci_init(config),
            cci_wf(r@),
    {
        let r = CCIState {
            config,
            typical_prices: VecDeque::new(),
            tp_sum: 0,
            has_sufficient_data: false,
        };
        proof {
            assert(r@ =~= spec_cci_init(config));
        }
        r
    }

    /// An owned copy of this state with the same mathematical view.
    pub fn snapshot(&self) -> (r: CCIState)
        ensures
            r@ == self@,
    {
        let r = CCIState {
            config: self.config,
            typical_prices: self.typical_prices.clone(),
            tp_sum: self.tp_sum,
            has_sufficient_data: self.has_sufficient_data,
        };
        proof {
            assert(r.typical_prices@ =~= self.typical_prices@);
            assert(r@ =~= self@);
        }
        r
    }
}

/// Commodity Channel Index calculator.
#[derive(Debug, Clone)]
pub struct CCI {
    state: CCIState,
}

impl View for CCI {
    type V = CciStateModel;

    closed spec fn view(&self) -> CciStateModel {
        self.state@
    }
}

impl CCI {
    /// Create a new CCI calculator with the default configuration.
    pub fn new() -> (r: Self)
        ensures
            r@ == spec_cci_init(CCIConfig::spec_default()),
            cci_wf(r@),
    {
        Self::with_config(CCIConfig::default())
    }

    /// Create a new CCI calculator with a custom period, which is rejected
    /// exactly when it is zero.
    pub fn with_period(period: usize) -> (r: Result<Self, CCIError>)
        ensures
            match r {
                Ok(c) => {
                    &&& period != 0
                    &&& c@ == spec_cci_init(CCIConfig { period, ..CCIConfig::spec_default() })
                    &&& cci_wf(c@)
                },
                Err(e) => period == 0 && e == CCIError::InvalidPeriod,
            },
    {
        if period == 0 {
            return Err(CCIError::InvalidPeriod);
        }
        let config = CCIConfig {
            period,
            overbought: DEFAULT_CCI_OVERBOUGHT,
            oversold: DEFAULT_CCI_OVERSOLD,
            extreme_overbought: DEFAULT_CCI_EXTREME_OVERBOUGHT,
            extreme_oversold: DEFAULT_CCI_EXTREME_OVERSOLD,
        };
        Ok(Self::with_config(config))
    }

    /// Create a new CCI calculator with a custom period and thresholds,
    /// rejecting a zero period and any threshold set that is not ordered.
    pub fn with_thresholds(
        period: usize,
        overbought: i64,
        oversold: i64,
        extreme_overbought: i64,
        extreme_oversold: i64,
    ) -> (r: Result<Self, CCIError>)
        ensures
            match r {
                Ok(c) => {
                    &&& period != 0
                    &&& spec_cci_thresholds_ok(
                        CCIConfig { period, overbought, oversold, extreme_overbought, extreme_oversold },
                    )
                    &&& c@ == spec_cci_init(
                        CCIConfig { period, overbought, oversold, extreme_overbought, extreme_oversold },
                    )
                    &&& cci_wf(c@)
                },
                Err(e) => {
                    if period == 0 {
                        e == CCIError::InvalidPeriod
                    } else {
                        e == CCIError::InvalidThresholds && !spec_cci_thresholds_ok(
                            CCIConfig {
                                period,
                                overbought,
                                oversold,
                                extreme_overbought,
                                extreme_oversold,
                            },
                        )
                    }
                },
            },
    {
        if period == 0 {
            return Err(CCIError::InvalidPeriod);
        }
        if overbought <= oversold || extreme_overbought <= overbought
            || extreme_oversold >= oversold {
            return Err(CCIError::InvalidThresholds);
        }
        let config = CCIConfig { period, overbought, oversold, extreme_overbought, extreme_oversold };
        Ok(Self::with_config(config))
    }

    /// Create a new CCI calculator with a custom configuration; validation is
    /// deferred to `calculate`.
    pub fn with_config(config: CCIConfig) -> (r: Self)
        ensures
            r@ == spec_cci_init(config),
            cci_wf(r@),
    {
        CCI { state: CCIState::new(config) }
    }

    /// Reset the calculator state in place, preserving the configuration.
    pub fn reset(&mut self)
        ensures
            final(self)@ == spec_cci_init(old(self)@.config),
            cci_wf(final(self)@),
    {
        self.state = CCIState::new(self.state.config);
    }

    /// Current state, for snapshotting.
    pub fn get_state(&self) -> (r: &CCIState)
        ensures
            r@ == self@,
    {
        &self.state
    }

    /// Restore a previously taken state snapshot.
    pub fn set_state(&mut self, state: CCIState)
        requires
            cci_wf(state@),
        ensures
            final(self)@ == state@,
    {
        self.state = state;
    }

    /// Market condition available without a fresh bar: only the sufficiency
    /// of the window is known.
    pub fn market_condition(&self) -> (r: CCIMarketCondition)
        ensures
            r == if self@.has_sufficient_data {
                CCIMarketCondition::Normal
            } else {
                CCIMarketCondition::Insufficient
            },
    {
        if !self.state.has_sufficient_data {
            CCIMarketCondition::Insufficient
        } else {
            CCIMarketCondition::Normal
        }
    }

    /// Whether a CCI value is at or above the overbought threshold.
    pub fn is_overbought(&self, cci: i128) -> (r: bool)
        ensures
            r == (cci >= self@.config.overbought),
    {
        cci >= self.state.config.overbought as i128
    }

    /// Whether a CCI value is at or below the oversold threshold.
    pub fn is_oversold(&self, cci: i128) -> (r: bool)
        ensures
            r == (cci <= self@.config.oversold),
    {
        cci <= self.state.config.oversold as i128
    }

    /// Whether a CCI value is in either extreme band.
    pub fn is_extreme_condition(&self, cci: i128) -> (r: bool)
        ensures
            r == (cci >= self@.config.extreme_overbought || cci <= self@.config.extreme_oversold),
    {
        cci >= self.state.config.extreme_overbought as i128
            || cci <= self.state.config.extreme_oversold as i128
    }

    fn validate_input(&self, input: &CCIInput) -> (r: Result<(), CCIError>)
        ensures
            match r {
                Ok(()) => spec_cci_input_error(*input) is None,
                Err(e) => spec_cci_input_error(*input) == Some(e),
            },
    {
        if input.high < 0 || input.high > PRICE_MAX || input.low < 0 || input.low > PRICE_MAX
            || input.close < 0 || input.close > PRICE_MAX {
            return Err(CCIError::InvalidPrice);
        }
        if input.high < input.low {
            return Err(CCIError::InvalidHLC);
        }
        if input.close < input.low || input.close > input.high {
            return Err(CCIError::InvalidHLC);
        }
        Ok(())
    }

    fn validate_config(&self) -> (r: Result<(), CCIError>)
        ensures
            match r {
                Ok(()) => spec_cci_config_error(self@.config) is None,
                Err(e) => spec_cci_config_error(self@.config) == Some(e),
            },
    {
        if self.state.config.period == 0 || self.state.config.period > PERIOD_MAX {
            return Err(CCIError::InvalidPeriod);
        }
        let config = &self.state.config;
        if config.overbought <= config.oversold || config.extreme_overbought <= config.overbought
            || config.extreme_oversold >= config.oversold {
            return Err(CCIError::InvalidThresholds);
        }
        Ok(())
    }

    fn calculate_typical_price(&self, input: &CCIInput) -> (r: i64)
        requires
            (spec_cci_input_error(*input) is None),
        ensures
            r == spec_typical_price(*input),
            0 <= r <= PRICE_MAX,
    {
        proof {
            lemma_div_nonneg_bound(
                input.high + input.low + input.close,
                3,
                PRICE_MAX as int,
            );
        }
        (((input.high as u64) + (input.low as u64) + (input.close as u64)) / 3) as i64
    }

    /// Consume one bar. On any error the state is left untouched; on success
    /// the state advances by exactly one step of `spec_cci_next` and the
    /// output is `spec_cci_output`.
    pub fn calculate(&mut self, input: CCIInput) -> (r: Result<CCIOutput, CCIError>)
        requires
            cci_wf(old(self)@),
        ensures
            cci_wf(final(self)@),
            match r {
                Ok(o) => {
                    &&& spec_cci_accepts(old(self)@, input)
                    &&& final(self)@ == spec_cci_next(old(self)@, input)
                    &&& o@ == spec_cci_output(old(self)@, input)
                },
                Err(e) => {
                    &&& spec_cci_error(old(self)@, input) == Some(e)
                    &&& final(self)@ == old(self)@
                },
            },
    {
        match self.validate_input(&input) {
            Ok(()) => {},
            Err(e) => {
                return Err(e);
            },
        }
        match self.validate_config() {
            Ok(()) => {},
            Err(e) => {
                return Err(e);
            },
        }
        let ghost m0 = old(self)@;
        let typical_price = self.calculate_typical_price(&input);
        // Update the rolling window and its running sum.
        if self.state.typical_prices.len() >= self.state.config.period {
            proof {
                lemma_seq_sum_pop_front(m0.typical_prices);
                lemma_seq_sum_bounds(
                    m0.typical_prices.subrange(1, m0.typical_prices.len() as int),
                    PRICE_MAX as int,
                );
            }
            match self.state.typical_prices.pop_front() {
                Some(oldest) => {
                    self.state.tp_sum = self.state.tp_sum - oldest;
                },
                None => {},
            }
        }
        proof {
            let cur = self.state.typical_prices@.map_values(|x: i64| x as int);
            if m0.typical_prices.len() >= m0.config.period {
                assert(cur =~= m0.typical_prices.subrange(1, m0.typical_prices.len() as int));
            } else {
                assert(cur =~= m0.typical_prices);
            }
            assert forall|j: int| 0 <= j < cur.len() implies 0 <= #[trigger] cur[j]
                <= PRICE_MAX by {
                if m0.typical_prices.len() >= m0.config.period {
                    assert(cur[j] == m0.typical_prices[j + 1]);
                } else {
                    assert(cur[j] == m0.typical_prices[j]);
                }
            }
            lemma_seq_sum_bounds(cur, PRICE_MAX as int);
            let pre_len = cur.len() as int;
            assert(pre_len * PRICE_MAX <= (PERIOD_MAX - 1) * PRICE_MAX) by (nonlinear_arith)
                requires
                    pre_len <= PERIOD_MAX - 1,
            ;
        }
        self.state.typical_prices.push_back(typical_price);
        self.state.tp_sum = self.state.tp_sum + typical_price;
        let ghost tps = spec_cci_tps_next(m0, input);
        proof {
            assert(self.state.typical_prices@.map_values(|x: i64| x as int) =~= tps);
            assert(tps.drop_last() =~= if m0.typical_prices.len() >= m0.config.period {
                m0.typical_prices.subrange(1, m0.typical_prices.len() as int)
            } else {
                m0.typical_prices
            });
            assert forall|j: int| 0 <= j < tps.len() implies 0 <= #[trigger] tps[j]
                <= PRICE_MAX by {
                if j == tps.len() - 1 {
                } else if m0.typical_prices.len() >= m0.config.period {
                    assert(tps[j] == m0.typical_prices[j + 1]);
                } else {
                    assert(tps[j] == m0.typical_prices[j]);
                }
            }
        }
        let n = self.state.typical_prices.len();
        self.state.has_sufficient_data = n >= self.state.config.period;
        // Compute the output components.
        let (cci, sma_tp, mean_deviation): (i128, i64, i64) = if self.state.has_sufficient_data {
            proof {
                lemma_seq_sum_bounds(tps, PRICE_MAX as int);
                assert(tps.len() * PRICE_MAX == PRICE_MAX * tps.len()) by (nonlinear_arith);
                lemma_div_nonneg_bound(seq_sum(tps), n as int, PRICE_MAX as int);
            }
            let sma = div_nonneg(self.state.tp_sum, self.state.config.period as i64);
            // Mean absolute deviation over the window.
            let mut dev_sum: i64 = 0;
            let mut j: usize = 0;
            while j < n
                invariant
                    0 <= j <= n,
                    n == self.state.typical_prices.len(),
                    tps == self.state.typical_prices@.map_values(|x: i64| x as int),
                    n <= PERIOD_MAX,
                    0 <= sma <= PRICE_MAX,
                    forall|k: int| 0 <= k < tps.len() ==> 0 <= #[trigger] tps[k] <= PRICE_MAX,
                    dev_sum == seq_dev_sum(tps.subrange(0, j as int), sma as int),
                    0 <= dev_sum <= j * PRICE_MAX,
                decreases n - j,
            {
                proof {
                    lemma_seq_dev_sum_extend(tps, sma as int, j as int);
                    assert(j * PRICE_MAX + PRICE_MAX == (j + 1) * PRICE_MAX) by (nonlinear_arith);
                }
                let tp_j = self.state.typical_prices[j];
                let dev = if tp_j >= sma {
                    tp_j - sma
                } else {
                    sma - tp_j
                };
                dev_sum = dev_sum + dev;
                j = j + 1;
            }
            proof {
                assert(tps.subrange(0, n as int) =~= tps);
                assert(n * PRICE_MAX == PRICE_MAX * n) by (nonlinear_arith);
                lemma_div_nonneg_bound(seq_dev_sum(tps, sma as int), n as int, PRICE_MAX as int);
            }
            let md = div_nonneg(dev_sum, self.state.config.period as i64);
            if md == 0 {
                (0, sma, md)
            } else {
                let diff = if typical_price >= sma {
                    typical_price - sma
                } else {
                    sma - typical_price
                };
                let numerator: u128 = (200 * SCALE) as u128 * (diff as u128);
                let denominator: u128 = 3 * (md as u128);
                proof {
                    vstd::arithmetic::mul::lemma_mul_upper_bound(
                        (200 * SCALE) as int,
                        (200 * SCALE) as int,
                        diff as int,
                        PRICE_MAX as int,
                    );
                    vstd::arithmetic::mul::lemma_mul_nonnegative((200 * SCALE) as int, diff as int);
                    vstd::arithmetic::div_mod::lemma_div_pos_is_pos(
                        200 * SCALE * diff,
                        3 * (md as int),
                    );
                    vstd::arithmetic::div_mod::lemma_div_nonincreasing(
                        200 * SCALE * diff,
                        3 * (md as int),
                    );
                }
                let magnitude: i128 = (numerator / denominator) as i128;
                let cci_val: i128 = if typical_price >= sma {
                    magnitude
                } else {
                    -magnitude
                };
                (cci_val, sma, md)
            }
        } else {
            (0, typical_price, 0)
        };
        let market_condition = if !self.state.has_sufficient_data {
            CCIMarketCondition::Insufficient
        } else if cci >= self.state.config.extreme_overbought as i128 {
            CCIMarketCondition::ExtremeOverbought
        } else if cci >= self.state.config.overbought as i128 {
            CCIMarketCondition::Overbought
        } else if cci <= self.state.config.extreme_oversold as i128 {
            CCIMarketCondition::ExtremeOversold
        } else if cci <= self.state.config.oversold as i128 {
            CCIMarketCondition::Oversold
        } else {
            CCIMarketCondition::Normal
        };
        let distance_from_zero: i128 = if cci >= 0 {
            cci
        } else {
            -cci
        };
        let out = CCIOutput {
            cci,
            typical_price,
            sma_tp,
            mean_deviation,
            market_condition,
            distance_from_zero,
        };
        proof {
            assert(final(self)@ =~= spec_cci_next(m0, input));
            assert(out@ =~= spec_cci_output(m0, input));
        }
        Ok(out)
    }
}

impl Default for CCI {
    fn default() -> (r: Self)
        ensures
            r@ == spec_cci_init(CCIConfig::spec_default()),
    {
        Self::new()
    }
}

/// Result of folding a bar sequence through the calculator.
#[verifier::ext_equal]
pub struct CciRunModel {
    pub state: CciStateModel,
    pub outputs: Seq<CciOutModel>,
    pub error: Option<CCIError>,
}

/// Fold a bar sequence through the calculator, stopping at the first error.
pub open spec fn spec_cci_run(m: CciStateModel, inputs: Seq<CCIInput>) -> CciRunModel
    decreases inputs.len(),
{
    if inputs.len() == 0 {
        CciRunModel { state: m, outputs: Seq::empty(), error: None }
    } else {
        let i = inputs[0];
        if spec_cci_accepts(m, i) {
            let rest = spec_cci_run(spec_cci_next(m, i), inputs.subrange(1, inputs.len() as int));
            CciRunModel {
                state: rest.state,
                outputs: seq![spec_cci_output(m, i)] + rest.outputs,
                error: rest.error,
            }
        } else {
            CciRunModel { state: m, outputs: Seq::empty(), error: spec_cci_error(m, i) }
        }
    }
}

impl CCI {
    /// Calculate CCI for a batch of bars: a strict left-to-right fold that
    /// stops at the first error, whose partial state survives.
    pub fn calculate_batch(&mut self, inputs: &[CCIInput]) -> (r: Result<Vec<CCIOutput>, CCIError>)
        requires
            cci_wf(old(self)@),
        ensures
            cci_wf(final(self)@),
            final(self)@ == spec_cci_run(old(self)@, inputs@).state,
            match r {
                Ok(v) => {
                    &&& (spec_cci_run(old(self)@, inputs@).error is None)
                    &&& v@.map_values(|o: CCIOutput| o@) == spec_cci_run(
                        old(self)@,
                        inputs@,
                    ).outputs
                },
                Err(e) => spec_cci_run(old(self)@, inputs@).error == Some(e),
            },
    {
        let ghost m0 = old(self)@;
        let ghost all = inputs@;
        proof {
            assert(all.subrange(0, all.len() as int) =~= all);
        }
        let mut results: Vec<CCIOutput> = Vec::new();
        let mut idx: usize = 0;
        while idx < inputs.len()
            invariant
                cci_wf(self@),
                0 <= idx <= inputs.len(),
                m0 == old(self)@,
                all == inputs@,
                spec_cci_run(m0, all).state == spec_cci_run(
                    self@,
                    all.subrange(idx as int, all.len() as int),
                ).state,
                spec_cci_run(m0, all).error == spec_cci_run(
                    self@,
                    all.subrange(idx as int, all.len() as int),
                ).error,
                spec_cci_run(m0, all).outputs == results@.map_values(|o: CCIOutput| o@)
                    + spec_cci_run(self@, all.subrange(idx as int, all.len() as int)).outputs,
            decreases inputs.len() - idx,
        {
            let ghost pre = self@;
            let ghost rest = all.subrange(idx as int, all.len() as int);
            proof {
                assert(rest.len() > 0);
                assert(rest[0] == all[idx as int]);
                assert(rest.subrange(1, rest.len() as int) =~= all.subrange(
                    idx as int + 1,
                    all.len() as int,
                ));
            }
            match self.calculate(inputs[idx]) {
                Ok(o) => {
                    results.push(o);
                    proof {
                        assert(results@.map_values(|o: CCIOutput| o@) =~= results@.subrange(
                            0,
                            results@.len() - 1,
                        ).map_values(|o: CCIOutput| o@).push(o@));
                        assert(spec_cci_run(pre, rest).outputs == seq![
                            spec_cci_output(pre, rest[0]),
                        ] + spec_cci_run(self@, rest.subrange(1, rest.len() as int)).outputs);
                        assert(spec_cci_run(m0, all).outputs == results@.map_values(
                            |o: CCIOutput| o@,
                        ) + spec_cci_run(
                            self@,
                            all.subrange(idx as int + 1, all.len() as int),
                        ).outputs);
                    }
                },
                Err(e) => {
                    proof {
                        assert(spec_cci_run(pre, rest).error == Some(e));
                        assert(spec_cci_run(pre, rest).state == pre);
                        assert(spec_cci_run(pre, rest).outputs =~= Seq::<CciOutModel>::empty());
                        assert(results@.map_values(|o: CCIOutput| o@) + Seq::<
                            CciOutModel,
                        >::empty() =~= results@.map_values(|o: CCIOutput| o@));
                    }
                    return Err(e);
                },
            }
            idx = idx + 1;
        }
        proof {
            let rest = all.subrange(idx as int, all.len() as int);
            assert(rest =~= Seq::<CCIInput>::empty());
            assert(results@.map_values(|o: CCIOutput| o@) + Seq::<CciOutModel>::empty()
                =~= results@.map_values(|o: CCIOutput| o@));
        }
        Ok(results)
    }
}

/// The bar sequence formed from parallel high/low/close arrays.
pub open spec fn spec_cci_inputs(highs: Seq<i64>, lows: Seq<i64>, closes: Seq<i64>) -> Seq<
    CCIInput,
> {
    Seq::new(highs.len(), |k: int| CCIInput { high: highs[k], low: lows[k], close: closes[k] })
}

/// The run that `calculate_cci_simple` performs.
pub open spec fn spec_cci_simple_run(
    highs: Seq<i64>,
    lows: Seq<i64>,
    closes: Seq<i64>,
    period: usize,
) -> CciRunModel {
    spec_cci_run(
        spec_cci_init(CCIConfig { period, ..CCIConfig::spec_default() }),
        spec_cci_inputs(highs, lows, closes),
    )
}

/// Calculate the CCI value series for high/low/close arrays without keeping
/// a calculator: equal-length arrays are folded through a fresh calculator
/// with the given period, and the `cci` field of each output is collected.
/// Length mismatches are rejected; an empty series yields an empty result.
pub fn calculate_cci_simple(
    highs: &[i64],
    lows: &[i64],
    closes: &[i64],
    period: usize,
) -> (r: Result<Vec<i128>, CCIError>)
    ensures
        match r {
            Ok(v) => {
                &&& (highs@.len() == lows@.len() && highs@.len() == closes@.len())
                &&& (highs@.len() == 0 ==> v@.len() == 0)
                &&& (highs@.len() > 0 ==> period != 0)
                &&& (highs@.len() > 0 ==> spec_cci_simple_run(
                    highs@,
                    lows@,
                    closes@,
                    period,
                ).error is None)
                &&& (highs@.len() > 0 ==> v@.len() == spec_cci_simple_run(
                    highs@,
                    lows@,
                    closes@,
                    period,
                ).outputs.len())
                &&& (forall|k: int| 0 <= k < v@.len() && highs@.len() > 0 ==> v@[k]
                    == #[trigger] spec_cci_simple_run(highs@, lows@, closes@, period).outputs[k].cci)
            },
            Err(e) => {
                if highs@.len() != lows@.len() || highs@.len() != closes@.len() {
                    e is InvalidInput
                } else if highs@.len() == 0 {
                    false
                } else if period == 0 {
                    e == CCIError::InvalidPeriod
                } else {
                    Some(e) == spec_cci_simple_run(highs@, lows@, closes@, period).error
                }
            },
        },
{
    let len = highs.len();
    if len != lows.len() || len != closes.len() {
        return Err(CCIError::InvalidInput("All price arrays must have same length".to_string()));
    }
    if len == 0 {
        return Ok(Vec::new());
    }
    let mut cci_calculator = match CCI::with_period(period) {
        Ok(c) => c,
        Err(e) => {
            return Err(e);
        },
    };
    let ghost m0 = cci_calculator@;
    let ghost all = spec_cci_inputs(highs@, lows@, closes@);
    proof {
        assert(all.subrange(0, all.len() as int) =~= all);
    }
    let mut results: Vec<i128> = Vec::new();
    let mut idx: usize = 0;
    while idx < len
        invariant
            cci_wf(cci_calculator@),
            0 <= idx <= len,
            len == highs@.len() && len == lows@.len() && len == closes@.len(),
            period != 0,
            m0 == spec_cci_init(CCIConfig { period, ..CCIConfig::spec_default() }),
            all == spec_cci_inputs(highs@, lows@, closes@),
            spec_cci_run(m0, all).error == spec_cci_run(
                cci_calculator@,
                all.subrange(idx as int, all.len() as int),
            ).error,
            results@.len() + spec_cci_run(
                cci_calculator@,
                all.subrange(idx as int, all.len() as int),
            ).outputs.len() == spec_cci_run(m0, all).outputs.len(),
            forall|k: int| 0 <= k < results@.len() ==> results@[k] == #[trigger] spec_cci_run(
                m0,
                all,
            ).outputs[k].cci,
            forall|k: int| results@.len() <= k < spec_cci_run(m0, all).outputs.len()
                ==> #[trigger] spec_cci_run(m0, all).outputs[k] == spec_cci_run(
                cci_calculator@,
                all.subrange(idx as int, all.len() as int),
            ).outputs[k - results@.len()],
        decreases len - idx,
    {
        let ghost pre = cci_calculator@;
        let ghost rest = all.subrange(idx as int, all.len() as int);
        proof {
            assert(rest.len() > 0);
            assert(rest[0] == all[idx as int]);
            assert(rest.subrange(1, rest.len() as int) =~= all.subrange(
                idx as int + 1,
                all.len() as int,
            ));
        }
        let input = CCIInput { high: highs[idx], low: lows[idx], close: closes[idx] };
        proof {
            assert(rest[0] == input);
        }
        let output = match cci_calculator.calculate(input) {
            Ok(o) => o,
            Err(e) => {
                proof {
                    assert(spec_cci_run(pre, rest).error == Some(e));
                }
                return Err(e);
            },
        };
        results.push(output.cci);
        proof {
            assert(spec_cci_run(pre, rest).outputs == seq![spec_cci_output(pre, rest[0])]
                + spec_cci_run(
                cci_calculator@,
                rest.subrange(1, rest.len() as int),
            ).outputs);
            assert(results@[results@.len() - 1] == spec_cci_output(pre, rest[0]).cci);
        }
        idx = idx + 1;
    }
    proof {
        let rest = all.subrange(idx as int, all.len() as int);
        assert(rest =~= Seq::<CCIInput>::empty());
    }
    Ok(results)
}

} // verus!
