//! Average Directional Index (ADX).
//!
//! ADX measures trend strength regardless of direction. Per bar it derives
//! True Range and raw directional movement, smooths them — first by a running
//! sum over the seeding window, then permanently by Wilder's recursion — and
//! normalizes the smoothed movements into the directional indicators +DI and
//! -DI, their spread DX, and the Wilder-smoothed DX average ADX. All values
//! are fixed point: prices in caller units, DI/DX/ADX in `SCALE` units per
//! percent point (so they range over `[0, HUNDRED]`).

use vstd::prelude::*;
use std::collections::VecDeque;

use crate::common::{
    valid_price, valid_period, opt_int, spec_wilder, wilder_smooth, scaled_ratio, div_nonneg,
    lemma_div_nonneg_bound, lemma_wilder_bounds, lemma_wilder_monotone, seq_sum,
    lemma_seq_sum_extend, lemma_seq_sum_bounds, PRICE_MAX, PERIOD_MAX, HUNDRED, SCALE,
};

verus! {

/// Configuration for ADX calculation.
#[derive(Debug, Clone, Copy, PartialEq, Eq, Structural)]
pub struct ADXConfig {
    /// Window length for the DI seeding sum and Wilder smoothing.
    pub period: usize,
    /// Window length for seeding and smoothing ADX itself.
    pub adx_smoothing: usize,
    /// Strong-trend threshold, in `SCALE` units per percent point.
    pub strong_trend_threshold: i64,
    /// Very-strong-trend threshold, in `SCALE` units per percent point.
    pub very_strong_trend_threshold: i64,
}

/// Default strong-trend threshold: 25 in indicator fixed point.
pub const DEFAULT_STRONG_THRESHOLD: i64 = 25 * SCALE;

/// Default very-strong-trend threshold: 50 in indicator fixed point.
pub const DEFAULT_VERY_STRONG_THRESHOLD: i64 = 50 * SCALE;

impl ADXConfig {
    /// The default configuration: period 14, thresholds 25 and 50.
    pub open spec fn spec_default() -> ADXConfig {
        ADXConfig {
            period: 14,
            adx_smoothing: 14,
            strong_trend_threshold: DEFAULT_STRONG_THRESHOLD,
            very_strong_trend_threshold: DEFAULT_VERY_STRONG_THRESHOLD,
        }
    }
}

impl Default for ADXConfig {
    fn default() -> (r: Self)
        ensures
            r == ADXConfig::spec_default(),
    {
        ADXConfig {
            period: 14,
            adx_smoothing: 14,
            strong_trend_threshold: DEFAULT_STRONG_THRESHOLD,
            very_strong_trend_threshold: DEFAULT_VERY_STRONG_THRESHOLD,
        }
    }
}

/// One high/low/close bar in caller price units.
#[derive(Debug, Clone, Copy, PartialEq, Eq, Structural)]
pub struct ADXInput {
    /// High price.
    pub high: i64,
    /// Low price.
    pub low: i64,
    /// Close price.
    pub close: i64,
}

/// Trend strength classification.
#[derive(Debug, Clone, Copy, PartialEq, Eq, Structural)]
pub enum TrendStrength {
    /// ADX below the strong-trend threshold.
    Weak,
    /// ADX at or above the strong-trend threshold.
    Strong,
    /// ADX at or above the very-strong-trend threshold.
    VeryStrong,
    /// Not enough data yet.
    Insufficient,
}

/// Trend direction based on the DI comparison.
#[derive(Debug, Clone, Copy, PartialEq, Eq, Structural)]
pub enum TrendDirection {
    /// +DI above -DI.
    Up,
    /// -DI above +DI.
    Down,
    /// +DI equal to -DI.
    Sideways,
}

/// Output of one ADX calculation.
#[derive(Debug, Clone, Copy, PartialEq, Eq, Structural)]
pub struct ADXOutput {
    /// Average Directional Index, in `[0, HUNDRED]`.
    pub adx: i64,
    /// Plus Directional Indicator, in `[0, HUNDRED]`.
    pub plus_di: i64,
    /// Minus Directional Indicator, in `[0, HUNDRED]`.
    pub minus_di: i64,
    /// Directional Index, in `[0, HUNDRED]`.
    pub dx: i64,
    /// True Range of the current bar, in price units.
    pub true_range: i64,
    /// Trend strength classification.
    pub trend_strength: TrendStrength,
    /// Trend direction from the DI comparison.
    pub trend_direction: TrendDirection,
    /// `plus_di - minus_di`, in `[-HUNDRED, HUNDRED]`.
    pub di_spread: i64,
}

/// Per-bar record kept in the smoothing window.
#[derive(Debug, Clone, Copy, PartialEq, Eq, Structural)]
pub struct ADXPeriodData {
    /// True Range.
    pub true_range: i64,
    /// Plus Directional Movement.
    pub plus_dm: i64,
    /// Minus Directional Movement.
    pub minus_dm: i64,
    /// Plus DI.
    pub plus_di: i64,
    /// Minus DI.
    pub minus_di: i64,
    /// DX value.
    pub dx: i64,
}

/// Mathematical view of one per-bar record.
#[verifier::ext_equal]
pub struct AdxBarModel {
    pub true_range: int,
    pub plus_dm: int,
    pub minus_dm: int,
    pub plus_di: int,
    pub minus_di: int,
    pub dx: int,
}

impl View for ADXPeriodData {
    type V = AdxBarModel;

    open spec fn view(&self) -> AdxBarModel {
        AdxBarModel {
            true_range: self.true_range as int,
            plus_dm: self.plus_dm as int,
            minus_dm: self.minus_dm as int,
            plus_di: self.plus_di as int,
            minus_di: self.minus_di as int,
            dx: self.dx as int,
        }
    }
}

/// Mathematical view of the calculator state: every number widened to `int`
/// and both rolling windows as sequences, oldest element first.
#[verifier::ext_equal]
pub struct AdxStateModel {
    pub config: ADXConfig,
    pub previous_high: Option<int>,
    pub previous_low: Option<int>,
    pub previous_close: Option<int>,
    pub period_data: Seq<AdxBarModel>,
    pub smoothed_tr: Option<int>,
    pub smoothed_plus_dm: Option<int>,
    pub smoothed_minus_dm: Option<int>,
    pub dx_history: Seq<int>,
    pub current_adx: Option<int>,
    pub has_di_data: bool,
    pub has_adx_data: bool,
    pub is_first: bool,
}

/// Mathematical view of one output.
#[verifier::ext_equal]
pub struct AdxOutModel {
    pub adx: int,
    pub plus_di: int,
    pub minus_di: int,
    pub dx: int,
    pub true_range: int,
    pub trend_strength: TrendStrength,
    pub trend_direction: TrendDirection,
    pub di_spread: int,
}

impl View for ADXOutput {
    type V = AdxOutModel;

    open spec fn view(&self) -> AdxOutModel {
        AdxOutModel {
            adx: self.adx as int,
            plus_di: self.plus_di as int,
            minus_di: self.minus_di as int,
            dx: self.dx as int,
            true_range: self.true_range as int,
            trend_strength: self.trend_strength,
            trend_direction: self.trend_direction,
            di_spread: self.di_spread as int,
        }
    }
}

/// ADX calculation state.
#[derive(Debug, Clone)]
pub struct ADXState {
    config: ADXConfig,
    previous_high: Option<i64>,
    previous_low: Option<i64>,
    previous_close: Option<i64>,
    period_data: VecDeque<ADXPeriodData>,
    smoothed_tr: Option<i64>,
    smoothed_plus_dm: Option<i64>,
    smoothed_minus_dm: Option<i64>,
    dx_history: VecDeque<i64>,
    current_adx: Option<i64>,
    has_di_data: bool,
    has_adx_data: bool,
    is_first: bool,
}

impl View for ADXState {
    type V = AdxStateModel;

    closed spec fn view(&self) -> AdxStateModel {
        AdxStateModel {
            config: self.config,
            previous_high: opt_int(self.previous_high),
            previous_low: opt_int(self.previous_low),
            previous_close: opt_int(self.previous_close),
            period_data: self.period_data@.map_values(|d: ADXPeriodData| d@),
            smoothed_tr: opt_int(self.smoothed_tr),
            smoothed_plus_dm: opt_int(self.smoothed_plus_dm),
            smoothed_minus_dm: opt_int(self.smoothed_minus_dm),
            dx_history: self.dx_history@.map_values(|x: i64| x as int),
            current_adx: opt_int(self.current_adx),
            has_di_data: self.has_di_data,
            has_adx_data: self.has_adx_data,
            is_first: self.is_first,
        }
    }
}

/// The state a freshly built or reset calculator holds.
pub open spec fn spec_adx_init(config: ADXConfig) -> AdxStateModel {
    AdxStateModel {
        config,
        previous_high: None,
        previous_low: None,
        previous_close: None,
        period_data: Seq::empty(),
        smoothed_tr: None,
        smoothed_plus_dm: None,
        smoothed_minus_dm: None,
        dx_history: Seq::empty(),
        current_adx: None,
        has_di_data: false,
        has_adx_data: false,
        is_first: true,
    }
}

/// Error types for ADX calculation.
#[derive(Debug, Clone, PartialEq)]
pub enum ADXError {
    /// Invalid input data (batch helpers: array length mismatch).
    InvalidInput(String),
    /// Invalid high/low/close relationship.
    InvalidHLC,
    /// Price outside the representable range `[0, PRICE_MAX]`.
    InvalidPrice,
    /// Period outside the accepted range `[1, PERIOD_MAX]`.
    InvalidPeriod,
    /// Strong-trend threshold not below the very-strong one.
    InvalidThresholds,
    /// Division by zero in calculation (defensive; unreachable here).
    DivisionByZero,
}

/// The error a bar itself provokes, if any: range checks first, then the
/// high/low/close ordering.
pub open spec fn spec_adx_input_error(i: ADXInput) -> Option<ADXError> {
    if !valid_price(i.high) || !valid_price(i.low) || !valid_price(i.close) {
        Some(ADXError::InvalidPrice)
    } else if i.high < i.low {
        Some(ADXError::InvalidHLC)
    } else if i.close < i.low || i.close > i.high {
        Some(ADXError::InvalidHLC)
    } else {
        None
    }
}

/// The error a configuration provokes, if any.
pub open spec fn spec_adx_config_error(c: ADXConfig) -> Option<ADXError> {
    if !valid_period(c.period) || !valid_period(c.adx_smoothing) {
        Some(ADXError::InvalidPeriod)
    } else if c.strong_trend_threshold >= c.very_strong_trend_threshold {
        Some(ADXError::InvalidThresholds)
    } else {
        None
    }
}

/// The error one `calculate` call returns, if any: input checks come first.
pub open spec fn spec_adx_error(m: AdxStateModel, i: ADXInput) -> Option<ADXError> {
    if spec_adx_input_error(i) is Some {
        spec_adx_input_error(i)
    } else {
        spec_adx_config_error(m.config)
    }
}

/// True Range: the largest of high-low, |high - previous close| and
/// |low - previous close|; high-low alone when no previous close exists.
pub open spec fn spec_true_range(prev_close: Option<int>, i: ADXInput) -> int {
    match prev_close {
        Some(pc) => vstd::math::max3(
            i.high - i.low,
            vstd::math::abs(i.high - pc) as int,
            vstd::math::abs(i.low - pc) as int,
        ),
        None => i.high - i.low,
    }
}

/// Raw +DM: the upward excursion when it beats the downward one and is
/// positive; ties and negative moves yield zero.
pub open spec fn spec_plus_dm(prev_high: Option<int>, prev_low: Option<int>, i: ADXInput) -> int {
    match (prev_high, prev_low) {
        (Some(ph), Some(pl)) => {
            let up_move = i.high - ph;
            let down_move = pl - i.low;
            if up_move > down_move && up_move > 0 {
                up_move
            } else {
                0
            }
        },
        _ => 0,
    }
}

/// Raw -DM, symmetric to `spec_plus_dm`.
pub open spec fn spec_minus_dm(prev_high: Option<int>, prev_low: Option<int>, i: ADXInput) -> int {
    match (prev_high, prev_low) {
        (Some(ph), Some(pl)) => {
            let up_move = i.high - ph;
            let down_move = pl - i.low;
            if down_move > up_move && down_move > 0 {
                down_move
            } else {
                0
            }
        },
        _ => 0,
    }
}

/// Seeding accumulation: add the new sample to the running sum, or start it.
pub open spec fn spec_accumulate(v: Option<int>, x: int) -> Option<int> {
    match v {
        Some(a) => Some(a + x),
        None => Some(x),
    }
}

/// Steady-state smoothing: Wilder's recursion on an established sum.
pub open spec fn spec_smooth(v: Option<int>, x: int, period: int) -> Option<int> {
    match v {
        Some(a) => Some(spec_wilder(a, x, period)),
        None => None,
    }
}

/// Directional indicators from the smoothed values: zero while any smoothed
/// value is missing or the smoothed True Range is zero.
pub open spec fn spec_dis(
    s_tr: Option<int>,
    s_pdm: Option<int>,
    s_mdm: Option<int>,
) -> (int, int) {
    match (s_tr, s_pdm, s_mdm) {
        (Some(t), Some(p), Some(n)) => {
            if t != 0 {
                (HUNDRED * p / t, HUNDRED * n / t)
            } else {
                (0, 0)
            }
        },
        _ => (0, 0),
    }
}

/// DX: the normalized DI spread, zero when both DIs are zero.
pub open spec fn spec_dx(plus_di: int, minus_di: int) -> int {
    let di_sum = plus_di + minus_di;
    if di_sum == 0 {
        0
    } else {
        HUNDRED * vstd::math::abs(plus_di - minus_di) / di_sum
    }
}

/// The DX window after this bar: evict the oldest value once the window is
/// full, then append the new DX.
pub open spec fn spec_dx_history_next(m: AdxStateModel, dx: int) -> Seq<int> {
    let h = if m.dx_history.len() >= m.config.adx_smoothing {
        m.dx_history.subrange(1, m.dx_history.len() as int)
    } else {
        m.dx_history
    };
    h.push(dx)
}

/// ADX update: once the DX window is full, seed ADX with the plain window
/// mean exactly once, then Wilder-smooth every later DX into it. Returns the
/// emitted ADX, the stored ADX, and the has-data flag.
pub open spec fn spec_adx_update(m: AdxStateModel, dx: int) -> (int, Option<int>, bool) {
    let hist = spec_dx_history_next(m, dx);
    if hist.len() >= m.config.adx_smoothing {
        if !m.has_adx_data {
            let a = seq_sum(hist) / hist.len() as int;
            (a, Some(a), true)
        } else {
            match m.current_adx {
                Some(prev) => {
                    let a = spec_wilder(prev, dx, m.config.adx_smoothing as int);
                    (a, Some(a), true)
                },
                None => (0, m.current_adx, m.has_adx_data),
            }
        }
    } else {
        (0, m.current_adx, m.has_adx_data)
    }
}

/// The per-bar window after this bar: evict the oldest record once the
/// window is full, then append the new record.
pub open spec fn spec_period_data_next(m: AdxStateModel, d: AdxBarModel) -> Seq<AdxBarModel> {
    if m.period_data.len() >= m.config.period {
        m.period_data.subrange(1, m.period_data.len() as int).push(d)
    } else {
        m.period_data.push(d)
    }
}

/// Trend strength classification of an ADX value.
pub open spec fn spec_classify(c: ADXConfig, has_adx_data: bool, adx: int) -> TrendStrength {
    if !has_adx_data {
        TrendStrength::Insufficient
    } else if adx >= c.very_strong_trend_threshold {
        TrendStrength::VeryStrong
    } else if adx >= c.strong_trend_threshold {
        TrendStrength::Strong
    } else {
        TrendStrength::Weak
    }
}

/// Trend direction from the DI comparison.
pub open spec fn spec_direction(plus_di: int, minus_di: int) -> TrendDirection {
    if plus_di > minus_di {
        TrendDirection::Up
    } else if minus_di > plus_di {
        TrendDirection::Down
    } else {
        TrendDirection::Sideways
    }
}

/// One full step of the calculator on an accepted bar: the successor state
/// and the emitted output.
pub open spec fn spec_adx_step(m: AdxStateModel, i: ADXInput) -> (AdxStateModel, AdxOutModel) {
    if m.is_first {
        let next = AdxStateModel {
            previous_high: Some(i.high as int),
            previous_low: Some(i.low as int),
            previous_close: Some(i.close as int),
            is_first: false,
            ..m
        };
        let out = AdxOutModel {
            adx: 0,
            plus_di: 0,
            minus_di: 0,
            dx: 0,
            true_range: 0,
            trend_strength: TrendStrength::Insufficient,
            trend_direction: TrendDirection::Sideways,
            di_spread: 0,
        };
        (next, out)
    } else {
        let tr = spec_true_range(m.previous_close, i);
        let pdm = spec_plus_dm(m.previous_high, m.previous_low, i);
        let mdm = spec_minus_dm(m.previous_high, m.previous_low, i);
        let accumulating = m.period_data.len() < m.config.period;
        let s_tr = if accumulating {
            spec_accumulate(m.smoothed_tr, tr)
        } else {
            spec_smooth(m.smoothed_tr, tr, m.config.period as int)
        };
        let s_pdm = if accumulating {
            spec_accumulate(m.smoothed_plus_dm, pdm)
        } else {
            spec_smooth(m.smoothed_plus_dm, pdm, m.config.period as int)
        };
        let s_mdm = if accumulating {
            spec_accumulate(m.smoothed_minus_dm, mdm)
        } else {
            spec_smooth(m.smoothed_minus_dm, mdm, m.config.period as int)
        };
        let has_di = if accumulating && m.period_data.len() + 1 >= m.config.period {
            true
        } else {
            m.has_di_data
        };
        let (plus_di, minus_di) = spec_dis(s_tr, s_pdm, s_mdm);
        let dx = spec_dx(plus_di, minus_di);
        let (adx, current_adx, has_adx) = spec_adx_update(m, dx);
        let bar = AdxBarModel {
            true_range: tr,
            plus_dm: pdm,
            minus_dm: mdm,
            plus_di,
            minus_di,
            dx,
        };
        let next = AdxStateModel {
            config: m.config,
            previous_high: Some(i.high as int),
            previous_low: Some(i.low as int),
            previous_close: Some(i.close as int),
            period_data: spec_period_data_next(m, bar),
            smoothed_tr: s_tr,
            smoothed_plus_dm: s_pdm,
            smoothed_minus_dm: s_mdm,
            dx_history: spec_dx_history_next(m, dx),
            current_adx,
            has_di_data: has_di,
            has_adx_data: has_adx,
            is_first: false,
        };
        let out = AdxOutModel {
            adx,
            plus_di,
            minus_di,
            dx,
            true_range: tr,
            trend_strength: spec_classify(m.config, has_adx, adx),
            trend_direction: spec_direction(plus_di, minus_di),
            di_spread: plus_di - minus_di,
        };
        (next, out)
    }
}

/// Whether a bar is accepted in this state: no input and no config error.
pub open spec fn spec_adx_accepts(m: AdxStateModel, i: ADXInput) -> bool {
    spec_adx_error(m, i) is None
}

/// The successor state of one accepted bar.
pub open spec fn spec_adx_next(m: AdxStateModel, i: ADXInput) -> AdxStateModel {
    spec_adx_step(m, i).0
}

/// The output emitted for one accepted bar.
pub open spec fn spec_adx_output(m: AdxStateModel, i: ADXInput) -> AdxOutModel {
    spec_adx_step(m, i).1
}

/// Well-formedness of a calculator state: everything a run starting from a
/// fresh calculator maintains, and exactly what keeps every computation in
/// range.
pub open spec fn adx_wf(m: AdxStateModel) -> bool {
    &&& m.period_data.len() <= m.config.period
    &&& m.dx_history.len() <= m.config.adx_smoothing
    &&& (forall|j: int| 0 <= j < m.dx_history.len() ==> 0 <= #[trigger] m.dx_history[j] <= HUNDRED)
    &&& (m.has_adx_data ==> m.current_adx is Some)
    &&& match m.current_adx {
        Some(a) => 0 <= a <= HUNDRED,
        None => true,
    }
    &&& (m.smoothed_tr is Some <==> m.smoothed_plus_dm is Some)
    &&& (m.smoothed_tr is Some <==> m.smoothed_minus_dm is Some)
    &&& match (m.smoothed_tr, m.smoothed_plus_dm, m.smoothed_minus_dm) {
        (Some(t), Some(p), Some(n)) => {
            &&& 0 <= t <= m.period_data.len() * PRICE_MAX
            &&& 0 <= p <= t
            &&& 0 <= n <= t
        },
        _ => true,
    }
    &&& (!m.is_first ==> match (m.previous_high, m.previous_low, m.previous_close) {
        (Some(ph), Some(pl), Some(pc)) => {
            &&& 0 <= ph <= PRICE_MAX
            &&& 0 <= pl <= PRICE_MAX
            &&& pl <= pc <= ph
        },
        _ => false,
    })
    &&& (m.is_first ==> {
        &&& m.previous_high is None
        &&& m.previous_low is None
        &&& m.previous_close is None
        &&& m.period_data.len() == 0
        &&& m.dx_history.len() == 0
        &&& m.smoothed_tr is None
        &&& m.current_adx is None
        &&& !m.has_di_data
        &&& !m.has_adx_data
    })
}


/// A freshly built state is well formed, whatever the configuration.
pub proof fn lemma_adx_init_wf(config: ADXConfig)
    ensures
        adx_wf(spec_adx_init(config)),
{
}

impl ADXState {
    /// Build the empty state for a configuration.
    pub fn new(config: ADXConfig) -> (r: ADXState)
        ensures
            r@ == spec_adx_init(config),
            adx_wf(r@),
    {
        let r = ADXState {
            config,
            previous_high: None,
            previous_low: None,
            previous_close: None,
            period_data: VecDeque::new(),
            smoothed_tr: None,
            smoothed_plus_dm: None,
            smoothed_minus_dm: None,
            dx_history: VecDeque::new(),
            current_adx: None,
            has_di_data: false,
            has_adx_data: false,
            is_first: true,
        };
        proof {
            assert(r@ =~= spec_adx_init(config));
        }
        r
    }

    /// An owned copy of this state with the same mathematical view.
    pub fn snapshot(&self) -> (r: ADXState)
        ensures
            r@ == self@,
    {
        let r = ADXState {
            config: self.config,
            previous_high: self.previous_high,
            previous_low: self.previous_low,
            previous_close: self.previous_close,
            period_data: self.period_data.clone(),
            smoothed_tr: self.smoothed_tr,
            smoothed_plus_dm: self.smoothed_plus_dm,
            smoothed_minus_dm: self.smoothed_minus_dm,
            dx_history: self.dx_history.clone(),
            current_adx: self.current_adx,
            has_di_data: self.has_di_data,
            has_adx_data: self.has_adx_data,
            is_first: self.is_first,
        };
        proof {
            assert(r.period_data@ =~= self.period_data@);
            assert(r.dx_history@ =~= self.dx_history@);
            assert(r@ =~= self@);
        }
        r
    }
}

/// Average Directional Index calculator.
///
/// One instance consumes one bar sequence, strictly in order; its view is the
/// mathematical state model that every contract speaks about.
#[derive(Debug, Clone)]
pub struct ADX {
    state: ADXState,
}

impl View for ADX {
    type V = AdxStateModel;

    closed spec fn view(&self) -> AdxStateModel {
        self.state@
    }
}

impl ADX {
    /// Create a new ADX calculator with the default configuration.
    pub fn new() -> (r: Self)
        ensures
            r@ == spec_adx_init(ADXConfig::spec_default()),
            adx_wf(r@),
    {
        Self::with_config(ADXConfig::default())
    }

    /// Create a new ADX calculator with a custom period, which is rejected
    /// exactly when it is zero.
    pub fn with_period(period: usize) -> (r: Result<Self, ADXError>)
        ensures
            match r {
                Ok(c) => {
                    &&& period != 0
                    &&& c@ == spec_adx_init(
                        ADXConfig {
                            period,
                            adx_smoothing: period,
                            ..ADXConfig::spec_default()
                        },
                    )
                    &&& adx_wf(c@)
                },
                Err(e) => period == 0 && e == ADXError::InvalidPeriod,
            },
    {
        if period == 0 {
            return Err(ADXError::InvalidPeriod);
        }
        let config = ADXConfig {
            period,
            adx_smoothing: period,
            strong_trend_threshold: DEFAULT_STRONG_THRESHOLD,
            very_strong_trend_threshold: DEFAULT_VERY_STRONG_THRESHOLD,
        };
        Ok(Self::with_config(config))
    }

    /// Create a new ADX calculator with a custom period and ADX smoothing,
    /// rejected exactly when either is zero.
    pub fn with_periods(period: usize, adx_smoothing: usize) -> (r: Result<Self, ADXError>)
        ensures
            match r {
                Ok(c) => {
                    &&& period != 0
                    &&& adx_smoothing != 0
                    &&& c@ == spec_adx_init(
                        ADXConfig { period, adx_smoothing, ..ADXConfig::spec_default() },
                    )
                    &&& adx_wf(c@)
                },
                Err(e) => (period == 0 || adx_smoothing == 0) && e == ADXError::InvalidPeriod,
            },
    {
        if period == 0 || adx_smoothing == 0 {
            return Err(ADXError::InvalidPeriod);
        }
        let config = ADXConfig {
            period,
            adx_smoothing,
            strong_trend_threshold: DEFAULT_STRONG_THRESHOLD,
            very_strong_trend_threshold: DEFAULT_VERY_STRONG_THRESHOLD,
        };
        Ok(Self::with_config(config))
    }

    /// Create a new ADX calculator with a custom configuration; validation is
    /// deferred to `calculate`.
    pub fn with_config(config: ADXConfig) -> (r: Self)
        ensures
            r@ == spec_adx_init(config),
            adx_wf(r@),
    {
        ADX { state: ADXState::new(config) }
    }

    /// Reset the calculator state in place, preserving the configuration.
    pub fn reset(&mut self)
        ensures
            final(self)@ == spec_adx_init(old(self)@.config),
            adx_wf(final(self)@),
    {
        self.state = ADXState::new(self.state.config);
    }

    /// Current state, for snapshotting.
    pub fn get_state(&self) -> (r: &ADXState)
        ensures
            r@ == self@,
    {
        &self.state
    }

    /// Restore a previously taken state snapshot.
    pub fn set_state(&mut self, state: ADXState)
        requires
            adx_wf(state@),
        ensures
            final(self)@ == state@,
    {
        self.state = state;
    }

    /// Current trend strength, from the stored ADX value.
    pub fn trend_strength(&self) -> (r: TrendStrength)
        ensures
            r == match self@.current_adx {
                Some(a) => spec_classify(self@.config, self@.has_adx_data, a),
                None => TrendStrength::Insufficient,
            },
    {
        match self.state.current_adx {
            Some(adx) => self.classify_trend_strength(adx),
            None => TrendStrength::Insufficient,
        }
    }

    /// Current trend direction, from the most recent stored DI pair.
    pub fn trend_direction(&self) -> (r: Option<TrendDirection>)
        ensures
            r == if self@.period_data.len() > 0 {
                Some(
                    spec_direction(
                        self@.period_data.last().plus_di,
                        self@.period_data.last().minus_di,
                    ),
                )
            } else {
                None::<TrendDirection>
            },
    {
        let n = self.state.period_data.len();
        if n > 0 {
            let last = self.state.period_data[n - 1];
            Some(self.determine_trend_direction(last.plus_di, last.minus_di))
        } else {
            None
        }
    }

    fn classify_trend_strength(&self, adx: i64) -> (r: TrendStrength)
        ensures
            r == spec_classify(self@.config, self@.has_adx_data, adx as int),
    {
        if !self.state.has_adx_data {
            TrendStrength::Insufficient
        } else if adx >= self.state.config.very_strong_trend_threshold {
            TrendStrength::VeryStrong
        } else if adx >= self.state.config.strong_trend_threshold {
            TrendStrength::Strong
        } else {
            TrendStrength::Weak
        }
    }

    fn determine_trend_direction(&self, plus_di: i64, minus_di: i64) -> (r: TrendDirection)
        ensures
            r == spec_direction(plus_di as int, minus_di as int),
    {
        if plus_di > minus_di {
            TrendDirection::Up
        } else if minus_di > plus_di {
            TrendDirection::Down
        } else {
            TrendDirection::Sideways
        }
    }
}

impl Default for ADX {
    fn default() -> (r: Self)
        ensures
            r@ == spec_adx_init(ADXConfig::spec_default()),
    {
        Self::new()
    }
}


/// On an accepted bar after the first, the raw directional movements are
/// non-negative and never exceed the bar's True Range.
pub proof fn lemma_adx_dm_le_tr(m: AdxStateModel, i: ADXInput)
    requires
        adx_wf(m),
        !m.is_first,
        (spec_adx_input_error(i) is None),
    ensures
        0 <= spec_true_range(m.previous_close, i) <= PRICE_MAX,
        0 <= spec_plus_dm(m.previous_high, m.previous_low, i)
            <= spec_true_range(m.previous_close, i),
        0 <= spec_minus_dm(m.previous_high, m.previous_low, i)
            <= spec_true_range(m.previous_close, i),
{
    let ph = m.previous_high->Some_0;
    let pl = m.previous_low->Some_0;
    let pc = m.previous_close->Some_0;
    let tr = spec_true_range(m.previous_close, i);
    assert(tr >= i.high - i.low);
    assert(tr >= vstd::math::abs(i.high - pc));
    assert(tr >= vstd::math::abs(i.low - pc));
    let up_move = i.high - ph;
    let down_move = pl - i.low;
    if up_move > down_move && up_move > 0 {
        assert(i.high > ph >= pc);
        assert(up_move <= i.high - pc <= tr);
    }
    if down_move > up_move && down_move > 0 {
        assert(i.low < pl <= pc);
        assert(down_move <= pc - i.low <= tr);
    }
}

/// The step function preserves well-formedness and keeps every emitted
/// oscillator value inside its documented range.
pub proof fn lemma_adx_step_wf(m: AdxStateModel, i: ADXInput)
    requires
        adx_wf(m),
        spec_adx_accepts(m, i),
    ensures
        adx_wf(spec_adx_next(m, i)),
        0 <= spec_adx_output(m, i).adx <= HUNDRED,
        0 <= spec_adx_output(m, i).plus_di <= HUNDRED,
        0 <= spec_adx_output(m, i).minus_di <= HUNDRED,
        0 <= spec_adx_output(m, i).dx <= HUNDRED,
        0 <= spec_adx_output(m, i).true_range <= PRICE_MAX,
        spec_adx_output(m, i).di_spread == spec_adx_output(m, i).plus_di - spec_adx_output(
            m,
            i,
        ).minus_di,
{
    if m.is_first {
        assert(adx_wf(spec_adx_step(m, i).0));
    } else {
        lemma_adx_dm_le_tr(m, i);
        let tr = spec_true_range(m.previous_close, i);
        let pdm = spec_plus_dm(m.previous_high, m.previous_low, i);
        let mdm = spec_minus_dm(m.previous_high, m.previous_low, i);
        let period = m.config.period as int;
        let accumulating = m.period_data.len() < m.config.period;
        let s_tr = if accumulating {
            spec_accumulate(m.smoothed_tr, tr)
        } else {
            spec_smooth(m.smoothed_tr, tr, period)
        };
        let s_pdm = if accumulating {
            spec_accumulate(m.smoothed_plus_dm, pdm)
        } else {
            spec_smooth(m.smoothed_plus_dm, pdm, period)
        };
        let s_mdm = if accumulating {
            spec_accumulate(m.smoothed_minus_dm, mdm)
        } else {
            spec_smooth(m.smoothed_minus_dm, mdm, period)
        };
        let new_len = spec_period_data_next(
            m,
            AdxBarModel { true_range: tr, plus_dm: pdm, minus_dm: mdm, plus_di: 0, minus_di: 0, dx: 0 },
        ).len();
        // Bounds on the new smoothed values.
        if accumulating {
            match (m.smoothed_tr, m.smoothed_plus_dm, m.smoothed_minus_dm) {
                (Some(t), Some(p), Some(n)) => {
                    assert(m.period_data.len() * PRICE_MAX + PRICE_MAX
                        == (m.period_data.len() + 1) * PRICE_MAX) by (nonlinear_arith);
                },
                _ => {},
            }
        } else {
            match (m.smoothed_tr, m.smoothed_plus_dm, m.smoothed_minus_dm) {
                (Some(t), Some(p), Some(n)) => {
                    lemma_wilder_bounds(t, tr, period);
                    lemma_wilder_bounds(p, pdm, period);
                    lemma_wilder_bounds(n, mdm, period);
                    lemma_wilder_monotone(p, pdm, t, tr, period);
                    lemma_wilder_monotone(n, mdm, t, tr, period);
                    assert(PRICE_MAX <= m.period_data.len() * PRICE_MAX) by (nonlinear_arith)
                        requires
                            m.period_data.len() >= 1,
                    ;
                },
                _ => {},
            }
        }
        // Bounds on the directional indicators.
        let plus_di = spec_dis(s_tr, s_pdm, s_mdm).0;
        let minus_di = spec_dis(s_tr, s_pdm, s_mdm).1;
        match (s_tr, s_pdm, s_mdm) {
            (Some(t), Some(p), Some(n)) => {
                if t != 0 {
                    assert(HUNDRED * p <= HUNDRED * t) by (nonlinear_arith)
                        requires
                            p <= t,
                    ;
                    assert(HUNDRED * n <= HUNDRED * t) by (nonlinear_arith)
                        requires
                            n <= t,
                    ;
                    vstd::arithmetic::mul::lemma_mul_nonnegative(HUNDRED as int, p);
                    vstd::arithmetic::mul::lemma_mul_nonnegative(HUNDRED as int, n);
                    lemma_div_nonneg_bound(HUNDRED * p, t, HUNDRED as int);
                    lemma_div_nonneg_bound(HUNDRED * n, t, HUNDRED as int);
                }
            },
            _ => {},
        }
        assert(0 <= plus_di <= HUNDRED);
        assert(0 <= minus_di <= HUNDRED);
        // Bound on DX.
        let dx = spec_dx(plus_di, minus_di);
        let di_sum = plus_di + minus_di;
        if di_sum != 0 {
            let di_diff = vstd::math::abs(plus_di - minus_di) as int;
            assert(di_diff <= di_sum);
            assert(HUNDRED * di_diff <= HUNDRED * di_sum) by (nonlinear_arith)
                requires
                    di_diff <= di_sum,
            ;
            vstd::arithmetic::mul::lemma_mul_nonnegative(HUNDRED as int, di_diff);
            lemma_div_nonneg_bound(HUNDRED * di_diff, di_sum, HUNDRED as int);
        }
        assert(0 <= dx <= HUNDRED);
        // Bounds on the ADX update.
        let hist = spec_dx_history_next(m, dx);
        assert forall|j: int| 0 <= j < hist.len() implies 0 <= #[trigger] hist[j] <= HUNDRED by {
            if j == hist.len() - 1 {
                assert(hist[j] == dx);
            } else if m.dx_history.len() >= m.config.adx_smoothing {
                assert(hist[j] == m.dx_history[j + 1]);
            } else {
                assert(hist[j] == m.dx_history[j]);
            }
        }
        let upd = spec_adx_update(m, dx);
        if hist.len() >= m.config.adx_smoothing {
            if !m.has_adx_data {
                lemma_seq_sum_bounds(hist, HUNDRED as int);
                assert(hist.len() * HUNDRED == HUNDRED * hist.len()) by (nonlinear_arith);
                lemma_div_nonneg_bound(seq_sum(hist), hist.len() as int, HUNDRED as int);
            } else {
                match m.current_adx {
                    Some(prev) => {
                        lemma_wilder_bounds(prev, dx, m.config.adx_smoothing as int);
                    },
                    None => {},
                }
            }
        }
        assert(0 <= upd.0 <= HUNDRED);
        assert(adx_wf(spec_adx_step(m, i).0));
    }
}


impl ADX {
    fn validate_input(&self, input: &ADXInput) -> (r: Result<(), ADXError>)
        ensures
            match r {
                Ok(()) => spec_adx_input_error(*input) is None,
                Err(e) => spec_adx_input_error(*input) == Some(e),
            },
    {
        if input.high < 0 || input.high > PRICE_MAX || input.low < 0 || input.low > PRICE_MAX
            || input.close < 0 || input.close > PRICE_MAX {
            return Err(ADXError::InvalidPrice);
        }
        if input.high < input.low {
            return Err(ADXError::InvalidHLC);
        }
        if input.close < input.low || input.close > input.high {
            return Err(ADXError::InvalidHLC);
        }
        Ok(())
    }

    fn validate_config(&self) -> (r: Result<(), ADXError>)
        ensures
            match r {
                Ok(()) => spec_adx_config_error(self@.config) is None,
                Err(e) => spec_adx_config_error(self@.config) == Some(e),
            },
    {
        if self.state.config.period == 0 || self.state.config.period > PERIOD_MAX
            || self.state.config.adx_smoothing == 0
            || self.state.config.adx_smoothing > PERIOD_MAX {
            return Err(ADXError::InvalidPeriod);
        }
        if self.state.config.strong_trend_threshold
            >= self.state.config.very_strong_trend_threshold {
            return Err(ADXError::InvalidThresholds);
        }
        Ok(())
    }

    fn handle_first_calculation(&mut self, input: ADXInput) -> (r: Result<ADXOutput, ADXError>)
        requires
            old(self)@.is_first,
        ensures
            final(self)@ == spec_adx_next(old(self)@, input),
            (r matches Ok(o) && o@ == spec_adx_output(old(self)@, input)),
    {
        self.state.previous_high = Some(input.high);
        self.state.previous_low = Some(input.low);
        self.state.previous_close = Some(input.close);
        self.state.is_first = false;
        let out = ADXOutput {
            adx: 0,
            plus_di: 0,
            minus_di: 0,
            dx: 0,
            true_range: 0,
            trend_strength: TrendStrength::Insufficient,
            trend_direction: TrendDirection::Sideways,
            di_spread: 0,
        };
        proof {
            assert(final(self)@ =~= spec_adx_next(old(self)@, input));
            assert(out@ =~= spec_adx_output(old(self)@, input));
        }
        Ok(out)
    }

    fn calculate_true_range(&self, input: &ADXInput) -> (r: i64)
        requires
            (spec_adx_input_error(*input) is None),
            match self@.previous_close {
                Some(pc) => 0 <= pc <= PRICE_MAX,
                None => true,
            },
        ensures
            r == spec_true_range(self@.previous_close, *input),
            0 <= r <= PRICE_MAX,
    {
        match self.state.previous_close {
            Some(prev_close) => {
                let hl = input.high - input.low;
                let hc = if input.high >= prev_close {
                    input.high - prev_close
                } else {
                    prev_close - input.high
                };
                let lc = if input.low >= prev_close {
                    input.low - prev_close
                } else {
                    prev_close - input.low
                };
                let m1 = if hl >= hc {
                    hl
                } else {
                    hc
                };
                if m1 >= lc {
                    m1
                } else {
                    lc
                }
            },
            None => input.high - input.low,
        }
    }

    fn calculate_directional_movements(&self, input: &ADXInput) -> (r: (i64, i64))
        requires
            (spec_adx_input_error(*input) is None),
            match (self@.previous_high, self@.previous_low) {
                (Some(ph), Some(pl)) => 0 <= ph <= PRICE_MAX && 0 <= pl <= PRICE_MAX,
                _ => true,
            },
        ensures
            r.0 == spec_plus_dm(self@.previous_high, self@.previous_low, *input),
            r.1 == spec_minus_dm(self@.previous_high, self@.previous_low, *input),
            0 <= r.0 <= PRICE_MAX,
            0 <= r.1 <= PRICE_MAX,
    {
        match (self.state.previous_high, self.state.previous_low) {
            (Some(prev_high), Some(prev_low)) => {
                let up_move = input.high - prev_high;
                let down_move = prev_low - input.low;
                let plus_dm = if up_move > down_move && up_move > 0 {
                    up_move
                } else {
                    0
                };
                let minus_dm = if down_move > up_move && down_move > 0 {
                    down_move
                } else {
                    0
                };
                (plus_dm, minus_dm)
            },
            _ => (0, 0),
        }
    }

    fn accumulate_initial_data(&mut self, true_range: i64, plus_dm: i64, minus_dm: i64)
        requires
            adx_wf(old(self)@),
            valid_period(old(self)@.config.period),
            old(self)@.period_data.len() < old(self)@.config.period,
            0 <= true_range <= PRICE_MAX,
            0 <= plus_dm <= true_range,
            0 <= minus_dm <= true_range,
        ensures
            (final(self)@ == AdxStateModel {
                smoothed_tr: spec_accumulate(old(self)@.smoothed_tr, true_range as int),
                smoothed_plus_dm: spec_accumulate(old(self)@.smoothed_plus_dm, plus_dm as int),
                smoothed_minus_dm: spec_accumulate(old(self)@.smoothed_minus_dm, minus_dm as int),
                has_di_data: if old(self)@.period_data.len() + 1 >= old(self)@.config.period {
                    true
                } else {
                    old(self)@.has_di_data
                },
                ..old(self)@
            }),
    {
        proof {
            let len = old(self)@.period_data.len() as int;
            let p = old(self)@.config.period as int;
            assert(len * PRICE_MAX <= (p - 1) * PRICE_MAX) by (nonlinear_arith)
                requires
                    len <= p - 1,
            ;
        }
        match self.state.smoothed_tr {
            Some(tr) => {
                self.state.smoothed_tr = Some(tr + true_range);
            },
            None => {
                self.state.smoothed_tr = Some(true_range);
            },
        }
        match self.state.smoothed_plus_dm {
            Some(dm) => {
                self.state.smoothed_plus_dm = Some(dm + plus_dm);
            },
            None => {
                self.state.smoothed_plus_dm = Some(plus_dm);
            },
        }
        match self.state.smoothed_minus_dm {
            Some(dm) => {
                self.state.smoothed_minus_dm = Some(dm + minus_dm);
            },
            None => {
                self.state.smoothed_minus_dm = Some(minus_dm);
            },
        }
        if self.state.period_data.len() + 1 >= self.state.config.period {
            self.state.has_di_data = true;
        }
        proof {
            assert(final(self)@ =~= AdxStateModel {
                smoothed_tr: spec_accumulate(old(self)@.smoothed_tr, true_range as int),
                smoothed_plus_dm: spec_accumulate(old(self)@.smoothed_plus_dm, plus_dm as int),
                smoothed_minus_dm: spec_accumulate(old(self)@.smoothed_minus_dm, minus_dm as int),
                has_di_data: if old(self)@.period_data.len() + 1 >= old(self)@.config.period {
                    true
                } else {
                    old(self)@.has_di_data
                },
                ..old(self)@
            });
        }
    }

    fn update_smoothed_values(&mut self, true_range: i64, plus_dm: i64, minus_dm: i64)
        requires
            adx_wf(old(self)@),
            valid_period(old(self)@.config.period),
            0 <= true_range <= PRICE_MAX,
            0 <= plus_dm <= true_range,
            0 <= minus_dm <= true_range,
        ensures
            (final(self)@ == AdxStateModel {
                smoothed_tr: spec_smooth(
                    old(self)@.smoothed_tr,
                    true_range as int,
                    old(self)@.config.period as int,
                ),
                smoothed_plus_dm: spec_smooth(
                    old(self)@.smoothed_plus_dm,
                    plus_dm as int,
                    old(self)@.config.period as int,
                ),
                smoothed_minus_dm: spec_smooth(
                    old(self)@.smoothed_minus_dm,
                    minus_dm as int,
                    old(self)@.config.period as int,
                ),
                ..old(self)@
            }),
    {
        let period = self.state.config.period;
        match self.state.smoothed_tr {
            Some(smoothed_tr) => {
                self.state.smoothed_tr = Some(wilder_smooth(smoothed_tr, true_range, period));
            },
            None => {},
        }
        match self.state.smoothed_plus_dm {
            Some(smoothed_plus_dm) => {
                self.state.smoothed_plus_dm = Some(
                    wilder_smooth(smoothed_plus_dm, plus_dm, period),
                );
            },
            None => {},
        }
        match self.state.smoothed_minus_dm {
            Some(smoothed_minus_dm) => {
                self.state.smoothed_minus_dm = Some(
                    wilder_smooth(smoothed_minus_dm, minus_dm, period),
                );
            },
            None => {},
        }
        proof {
            assert(final(self)@ =~= AdxStateModel {
                smoothed_tr: spec_smooth(
                    old(self)@.smoothed_tr,
                    true_range as int,
                    old(self)@.config.period as int,
                ),
                smoothed_plus_dm: spec_smooth(
                    old(self)@.smoothed_plus_dm,
                    plus_dm as int,
                    old(self)@.config.period as int,
                ),
                smoothed_minus_dm: spec_smooth(
                    old(self)@.smoothed_minus_dm,
                    minus_dm as int,
                    old(self)@.config.period as int,
                ),
                ..old(self)@
            });
        }
    }

    fn calculate_directional_indicators(&self) -> (r: (i64, i64))
        requires
            match (self@.smoothed_tr, self@.smoothed_plus_dm, self@.smoothed_minus_dm) {
                (Some(t), Some(p), Some(n)) => 0 <= t && 0 <= p <= t && 0 <= n <= t,
                _ => true,
            },
        ensures
            r.0 == spec_dis(self@.smoothed_tr, self@.smoothed_plus_dm, self@.smoothed_minus_dm).0,
            r.1 == spec_dis(self@.smoothed_tr, self@.smoothed_plus_dm, self@.smoothed_minus_dm).1,
            0 <= r.0 <= HUNDRED,
            0 <= r.1 <= HUNDRED,
    {
        match (self.state.smoothed_tr, self.state.smoothed_plus_dm, self.state.smoothed_minus_dm) {
            (Some(smoothed_tr), Some(smoothed_plus_dm), Some(smoothed_minus_dm)) => {
                if smoothed_tr != 0 {
                    let plus_di = scaled_ratio(smoothed_plus_dm, smoothed_tr);
                    let minus_di = scaled_ratio(smoothed_minus_dm, smoothed_tr);
                    (plus_di, minus_di)
                } else {
                    (0, 0)
                }
            },
            _ => (0, 0),
        }
    }

    fn calculate_dx(&self, plus_di: i64, minus_di: i64) -> (r: Result<i64, ADXError>)
        requires
            0 <= plus_di <= HUNDRED,
            0 <= minus_di <= HUNDRED,
        ensures
            match r {
                Ok(dx) => dx == spec_dx(plus_di as int, minus_di as int) && 0 <= dx <= HUNDRED,
                Err(_) => false,
            },
    {
        let di_sum = plus_di + minus_di;
        if di_sum == 0 {
            Ok(0)
        } else {
            let di_diff = if plus_di >= minus_di {
                plus_di - minus_di
            } else {
                minus_di - plus_di
            };
            Ok(scaled_ratio(di_diff, di_sum))
        }
    }

    fn calculate_adx(&mut self, dx: i64) -> (r: i64)
        requires
            valid_period(old(self)@.config.adx_smoothing),
            0 <= dx <= HUNDRED,
            old(self)@.dx_history.len() <= old(self)@.config.adx_smoothing,
            forall|j: int| 0 <= j < old(self)@.dx_history.len() ==> 0 <= #[trigger] old(
                self,
            )@.dx_history[j] <= HUNDRED,
            (old(self)@.has_adx_data ==> old(self)@.current_adx is Some),
            match old(self)@.current_adx {
                Some(a) => 0 <= a <= HUNDRED,
                None => true,
            },
        ensures
            r == spec_adx_update(old(self)@, dx as int).0,
            0 <= r <= HUNDRED,
            (final(self)@ == AdxStateModel {
                dx_history: spec_dx_history_next(old(self)@, dx as int),
                current_adx: spec_adx_update(old(self)@, dx as int).1,
                has_adx_data: spec_adx_update(old(self)@, dx as int).2,
                ..old(self)@
            }),
    {
        let smoothing = self.state.config.adx_smoothing;
        if self.state.dx_history.len() >= smoothing {
            self.state.dx_history.pop_front();
        }
        self.state.dx_history.push_back(dx);
        proof {
            assert(self.state.dx_history@.map_values(|x: i64| x as int) =~= spec_dx_history_next(
                old(self)@,
                dx as int,
            ));
        }
        let ghost hist = spec_dx_history_next(old(self)@, dx as int);
        let ghost upd = spec_adx_update(old(self)@, dx as int);
        proof {
            assert forall|j: int| 0 <= j < hist.len() implies 0 <= #[trigger] hist[j]
                <= HUNDRED by {
                if j == hist.len() - 1 {
                    assert(hist[j] == dx as int);
                } else if old(self)@.dx_history.len() >= old(self)@.config.adx_smoothing {
                    assert(hist[j] == old(self)@.dx_history[j + 1]);
                } else {
                    assert(hist[j] == old(self)@.dx_history[j]);
                }
            }
        }
        let adx_result: i64;
        if self.state.dx_history.len() >= smoothing {
            if !self.state.has_adx_data {
                let n = self.state.dx_history.len();
                let mut sum: i64 = 0;
                let mut j: usize = 0;
                while j < n
                    invariant
                        0 <= j <= n,
                        n == self.state.dx_history.len(),
                        hist == self.state.dx_history@.map_values(|x: i64| x as int),
                        n <= PERIOD_MAX,
                        forall|k: int| 0 <= k < hist.len() ==> 0 <= #[trigger] hist[k] <= HUNDRED,
                        sum == seq_sum(hist.subrange(0, j as int)),
                        0 <= sum <= j * HUNDRED,
                    decreases n - j,
                {
                    proof {
                        lemma_seq_sum_extend(hist, j as int);
                        assert(j * HUNDRED + HUNDRED == (j + 1) * HUNDRED) by (nonlinear_arith);
                    }
                    sum = sum + self.state.dx_history[j];
                    j = j + 1;
                }
                proof {
                    assert(hist.subrange(0, n as int) =~= hist);
                    assert(n * HUNDRED == HUNDRED * n) by (nonlinear_arith);
                    lemma_div_nonneg_bound(seq_sum(hist), n as int, HUNDRED as int);
                }
                let adx = div_nonneg(sum, n as i64);
                self.state.current_adx = Some(adx);
                self.state.has_adx_data = true;
                adx_result = adx;
            } else {
                match self.state.current_adx {
                    Some(prev_adx) => {
                        let adx = wilder_smooth(prev_adx, dx, smoothing);
                        self.state.current_adx = Some(adx);
                        adx_result = adx;
                    },
                    None => {
                        adx_result = 0;
                    },
                }
            }
        } else {
            adx_result = 0;
        }
        proof {
            assert(final(self)@ =~= AdxStateModel {
                dx_history: hist,
                current_adx: upd.1,
                has_adx_data: upd.2,
                ..old(self)@
            });
        }
        adx_result
    }

    fn handle_normal_calculation(&mut self, input: ADXInput) -> (r: Result<ADXOutput, ADXError>)
        requires
            adx_wf(old(self)@),
            !old(self)@.is_first,
            spec_adx_accepts(old(self)@, input),
        ensures
            final(self)@ == spec_adx_next(old(self)@, input),
            (r matches Ok(o) && o@ == spec_adx_output(old(self)@, input)),
    {
        let ghost m0 = old(self)@;
        proof {
            lemma_adx_dm_le_tr(m0, input);
            lemma_adx_step_wf(m0, input);
        }
        let true_range = self.calculate_true_range(&input);
        let (plus_dm, minus_dm) = self.calculate_directional_movements(&input);
        if self.state.period_data.len() < self.state.config.period {
            self.accumulate_initial_data(true_range, plus_dm, minus_dm);
        } else {
            self.update_smoothed_values(true_range, plus_dm, minus_dm);
        }
        proof {
            let next = spec_adx_next(m0, input);
            assert(self@.smoothed_tr == next.smoothed_tr);
            assert(self@.smoothed_plus_dm == next.smoothed_plus_dm);
            assert(self@.smoothed_minus_dm == next.smoothed_minus_dm);
            assert(self@.dx_history == m0.dx_history);
            assert(self@.current_adx == m0.current_adx);
            assert(self@.has_adx_data == m0.has_adx_data);
            assert(self@.config == m0.config);
        }
        let (plus_di, minus_di) = self.calculate_directional_indicators();
        let dx = match self.calculate_dx(plus_di, minus_di) {
            Ok(dx) => dx,
            Err(e) => {
                return Err(e);
            },
        };
        let ghost mid = self@;
        proof {
            assert(spec_dx_history_next(mid, dx as int) == spec_dx_history_next(m0, dx as int));
            assert(spec_adx_update(mid, dx as int) == spec_adx_update(m0, dx as int));
        }
        let adx = self.calculate_adx(dx);
        let period_data = ADXPeriodData {
            true_range,
            plus_dm,
            minus_dm,
            plus_di,
            minus_di,
            dx,
        };
        if self.state.period_data.len() >= self.state.config.period {
            self.state.period_data.pop_front();
        }
        self.state.period_data.push_back(period_data);
        self.state.previous_high = Some(input.high);
        self.state.previous_low = Some(input.low);
        self.state.previous_close = Some(input.close);
        let trend_strength = self.classify_trend_strength(adx);
        let trend_direction = self.determine_trend_direction(plus_di, minus_di);
        let di_spread = plus_di - minus_di;
        let out = ADXOutput {
            adx,
            plus_di,
            minus_di,
            dx,
            true_range,
            trend_strength,
            trend_direction,
            di_spread,
        };
        proof {
            assert(self.state.period_data@.map_values(|d: ADXPeriodData| d@)
                =~= spec_adx_next(m0, input).period_data);
            assert(final(self)@ =~= spec_adx_next(m0, input));
            assert(out@ =~= spec_adx_output(m0, input));
        }
        Ok(out)
    }

    /// Consume one bar: validate it and the configuration, then perform one
    /// step of the pipeline. On any error the state is left untouched; on
    /// success the state advances by exactly one step of `spec_adx_next` and
    /// the output is `spec_adx_output`, every oscillator field of which lies
    /// in `[0, HUNDRED]`.
    pub fn calculate(&mut self, input: ADXInput) -> (r: Result<ADXOutput, ADXError>)
        requires
            adx_wf(old(self)@),
        ensures
            adx_wf(final(self)@),
            match r {
                Ok(o) => {
                    &&& spec_adx_accepts(old(self)@, input)
                    &&& final(self)@ == spec_adx_next(old(self)@, input)
                    &&& o@ == spec_adx_output(old(self)@, input)
                    &&& 0 <= o.adx <= HUNDRED
                    &&& 0 <= o.plus_di <= HUNDRED
                    &&& 0 <= o.minus_di <= HUNDRED
                    &&& 0 <= o.dx <= HUNDRED
                    &&& 0 <= o.true_range <= PRICE_MAX
                    &&& o.di_spread == o.plus_di - o.minus_di
                },
                Err(e) => {
                    &&& spec_adx_error(old(self)@, input) == Some(e)
                    &&& final(self)@ == old(self)@
                },
            },
    {
        match self.validate_input(&input) {
            Ok(()) => {},
            Err(e) => {
                return Err(e);
            },
        }
        match self.validate_config() {
            Ok(()) => {},
            Err(e) => {
                return Err(e);
            },
        }
        proof {
            lemma_adx_step_wf(old(self)@, input);
        }
        if self.state.is_first {
            self.handle_first_calculation(input)
        } else {
            self.handle_normal_calculation(input)
        }
    }
}


/// Result of folding a bar sequence through the calculator: the final state,
/// the outputs of the accepted bars, and the first error if one occurred.
#[verifier::ext_equal]
pub struct AdxRunModel {
    pub state: AdxStateModel,
    pub outputs: Seq<AdxOutModel>,
    pub error: Option<ADXError>,
}

/// Fold a bar sequence through the calculator, stopping at the first error.
/// Outputs of the bars accepted before the error are kept in order.
pub open spec fn spec_adx_run(m: AdxStateModel, inputs: Seq<ADXInput>) -> AdxRunModel
    decreases inputs.len(),
{
    if inputs.len() == 0 {
        AdxRunModel { state: m, outputs: Seq::empty(), error: None }
    } else {
        let i = inputs[0];
        if spec_adx_accepts(m, i) {
            let rest = spec_adx_run(spec_adx_next(m, i), inputs.subrange(1, inputs.len() as int));
            AdxRunModel {
                state: rest.state,
                outputs: seq![spec_adx_output(m, i)] + rest.outputs,
                error: rest.error,
            }
        } else {
            AdxRunModel { state: m, outputs: Seq::empty(), error: spec_adx_error(m, i) }
        }
    }
}

/// Law: the batch fold and the one-bar-at-a-time calculator agree. The k-th
/// output of a run is exactly the output of one step taken on the state that
/// the first k bars produced.
pub proof fn lemma_adx_run_index(m: AdxStateModel, bars: Seq<ADXInput>, k: int)
    requires
        0 <= k < spec_adx_run(m, bars).outputs.len(),
        k < bars.len(),
    ensures
        spec_adx_run(m, bars).outputs[k] == spec_adx_output(
            spec_adx_run(m, bars.take(k)).state,
            bars[k],
        ),
    decreases k,
{
    let tail = bars.subrange(1, bars.len() as int);
    if k == 0 {
        assert(bars.take(0) =~= Seq::<ADXInput>::empty());
    } else {
        assert(spec_adx_accepts(m, bars[0]));
        lemma_adx_run_index(spec_adx_next(m, bars[0]), tail, k - 1);
        assert(bars.take(k).subrange(1, bars.take(k).len() as int) =~= tail.take(k - 1));
        assert(tail[k - 1] == bars[k]);
        assert(spec_adx_run(m, bars).outputs[k] == spec_adx_run(
            spec_adx_next(m, bars[0]),
            tail,
        ).outputs[k - 1]);
    }
}

/// Law: replaying a bar sequence after a reset reproduces the run of a fresh
/// calculator with the same configuration, output for output.
pub proof fn lemma_adx_reset_replay(used: AdxStateModel, fresh: AdxStateModel, bars: Seq<ADXInput>)
    requires
        fresh == spec_adx_init(used.config),
    ensures
        spec_adx_run(spec_adx_init(used.config), bars) == spec_adx_run(fresh, bars),
{
}

/// Law: restoring a snapshot reproduces the calculation it was taken before,
/// both the emitted output and the successor state.
pub proof fn lemma_adx_snapshot_roundtrip(
    snapshot: AdxStateModel,
    restored: AdxStateModel,
    bar: ADXInput,
)
    requires
        restored == snapshot,
    ensures
        spec_adx_output(restored, bar) == spec_adx_output(snapshot, bar),
        spec_adx_next(restored, bar) == spec_adx_next(snapshot, bar),
{
}

/// Law: one step of a strict uptrend (high and low both above the previous
/// bar's) has zero minus directional movement, keeps a zero smoothed minus
/// DM at zero, emits `minus_di == 0 <= plus_di`, and never calls the trend
/// Down; it calls it Up exactly when the plus DI quotient is positive.
pub proof fn lemma_adx_uptrend_direction(m: AdxStateModel, i: ADXInput)
    requires
        adx_wf(m),
        spec_adx_accepts(m, i),
        !m.is_first,
        i.high > m.previous_high->Some_0,
        i.low > m.previous_low->Some_0,
        (m.smoothed_minus_dm is Some ==> m.smoothed_minus_dm->Some_0 == 0),
    ensures
        spec_adx_output(m, i).minus_di == 0,
        spec_adx_output(m, i).plus_di >= 0,
        (spec_adx_next(m, i).smoothed_minus_dm is Some ==> spec_adx_next(
            m,
            i,
        ).smoothed_minus_dm->Some_0 == 0),
        spec_adx_output(m, i).trend_direction != TrendDirection::Down,
        (spec_adx_output(m, i).plus_di > 0 ==> spec_adx_output(m, i).trend_direction
            == TrendDirection::Up),
{
    lemma_adx_step_wf(m, i);
    let mdm = spec_minus_dm(m.previous_high, m.previous_low, i);
    assert(mdm == 0);
    let period = m.config.period as int;
    let s_mdm = if m.period_data.len() < m.config.period {
        spec_accumulate(m.smoothed_minus_dm, mdm)
    } else {
        spec_smooth(m.smoothed_minus_dm, mdm, period)
    };
    assert(s_mdm is Some ==> s_mdm->Some_0 == 0) by {
        match m.smoothed_minus_dm {
            Some(v) => {
                if m.period_data.len() >= m.config.period {
                    assert(spec_wilder(0, 0, period) == 0) by {
                        assert(0int * (period - 1) + 0 == 0);
                        vstd::arithmetic::div_mod::lemma_div_of0(period);
                    }
                }
            },
            None => {},
        }
    }
    match spec_adx_next(m, i).smoothed_tr {
        Some(t) => {
            if t != 0 {
                vstd::arithmetic::div_mod::lemma_div_of0(t);
                assert(HUNDRED * 0int == 0);
            }
        },
        None => {},
    }
}

/// A bar sequence that rises strictly, both highs and lows, bar over bar —
/// and above the previous bar the state has already stored, if any.
pub open spec fn adx_rising_from(m: AdxStateModel, bars: Seq<ADXInput>) -> bool {
    &&& (!m.is_first && bars.len() > 0 ==> bars[0].high > m.previous_high->Some_0 && bars[0].low
        > m.previous_low->Some_0)
    &&& (forall|j: int| 1 <= j < bars.len() ==> #[trigger] bars[j].high > bars[j - 1].high
        && bars[j].low > bars[j - 1].low)
}

/// Law: a strictly rising bar sequence fed to a calculator whose smoothed
/// minus DM is absent or zero is accepted bar for bar, and every emitted
/// output has a zero minus DI, a plus DI at least as large, and a trend
/// direction that is never Down — and is Up whenever the plus DI quotient is
/// positive.
pub proof fn lemma_adx_uptrend_run(m: AdxStateModel, bars: Seq<ADXInput>)
    requires
        adx_wf(m),
        (spec_adx_config_error(m.config) is None),
        forall|j: int| 0 <= j < bars.len() ==> (#[trigger] spec_adx_input_error(bars[j]) is None),
        adx_rising_from(m, bars),
        (m.smoothed_minus_dm is Some ==> m.smoothed_minus_dm->Some_0 == 0),
    ensures
        spec_adx_run(m, bars).error is None,
        spec_adx_run(m, bars).outputs.len() == bars.len(),
        forall|k: int| 0 <= k < bars.len() ==> {
            &&& #[trigger] spec_adx_run(m, bars).outputs[k].minus_di == 0
            &&& spec_adx_run(m, bars).outputs[k].plus_di >= spec_adx_run(m, bars).outputs[k].minus_di
            &&& spec_adx_run(m, bars).outputs[k].trend_direction != TrendDirection::Down
            &&& (spec_adx_run(m, bars).outputs[k].plus_di > 0 ==> spec_adx_run(
                m,
                bars,
            ).outputs[k].trend_direction == TrendDirection::Up)
        },
    decreases bars.len(),
{
    if bars.len() == 0 {
    } else {
        let i = bars[0];
        let tail = bars.subrange(1, bars.len() as int);
        let next = spec_adx_next(m, i);
        let out = spec_adx_output(m, i);
        assert(spec_adx_accepts(m, i));
        lemma_adx_step_wf(m, i);
        if m.is_first {
            assert(out.minus_di == 0);
            assert(out.trend_direction == TrendDirection::Sideways);
            assert(next.smoothed_minus_dm == m.smoothed_minus_dm);
        } else {
            lemma_adx_uptrend_direction(m, i);
        }
        assert(next.previous_high == Some(i.high as int));
        assert(next.previous_low == Some(i.low as int));
        assert(forall|j: int| 0 <= j < tail.len() ==> (#[trigger] spec_adx_input_error(
            tail[j],
        ) is None));
        assert(adx_rising_from(next, tail)) by {
            if tail.len() > 0 {
                assert(tail[0] == bars[1]);
                assert(bars[1].high > bars[0].high);
            }
            assert forall|j: int| 1 <= j < tail.len() implies #[trigger] tail[j].high > tail[j
                - 1].high && tail[j].low > tail[j - 1].low by {
                assert(tail[j] == bars[j + 1]);
                assert(tail[j - 1] == bars[j]);
            }
        }
        lemma_adx_uptrend_run(next, tail);
        let run = spec_adx_run(m, bars);
        let rest = spec_adx_run(next, tail);
        assert(run.outputs == seq![out] + rest.outputs);
        assert forall|k: int| 0 <= k < bars.len() implies {
            &&& #[trigger] run.outputs[k].minus_di == 0
            &&& run.outputs[k].plus_di >= run.outputs[k].minus_di
            &&& run.outputs[k].trend_direction != TrendDirection::Down
            &&& (run.outputs[k].plus_di > 0 ==> run.outputs[k].trend_direction
                == TrendDirection::Up)
        } by {
            if k == 0 {
                assert(run.outputs[0] == out);
            } else {
                assert(run.outputs[k] == rest.outputs[k - 1]);
            }
        }
    }
}

impl ADX {
    /// Calculate ADX for a batch of bars: a strict left-to-right fold that
    /// stops at the first error, whose partial state survives.
    pub fn calculate_batch(&mut self, inputs: &[ADXInput]) -> (r: Result<
        Vec<ADXOutput>,
        ADXError,
    >)
        requires
            adx_wf(old(self)@),
        ensures
            adx_wf(final(self)@),
            final(self)@ == spec_adx_run(old(self)@, inputs@).state,
            match r {
                Ok(v) => {
                    &&& (spec_adx_run(old(self)@, inputs@).error is None)
                    &&& v@.map_values(|o: ADXOutput| o@) == spec_adx_run(
                        old(self)@,
                        inputs@,
                    ).outputs
                },
                Err(e) => spec_adx_run(old(self)@, inputs@).error == Some(e),
            },
    {
        let ghost m0 = old(self)@;
        let ghost all = inputs@;
        proof {
            assert(all.subrange(0, all.len() as int) =~= all);
        }
        let mut results: Vec<ADXOutput> = Vec::new();
        let mut idx: usize = 0;
        while idx < inputs.len()
            invariant
                adx_wf(self@),
                0 <= idx <= inputs.len(),
                m0 == old(self)@,
                all == inputs@,
                spec_adx_run(m0, all).state == spec_adx_run(
                    self@,
                    all.subrange(idx as int, all.len() as int),
                ).state,
                spec_adx_run(m0, all).error == spec_adx_run(
                    self@,
                    all.subrange(idx as int, all.len() as int),
                ).error,
                spec_adx_run(m0, all).outputs == results@.map_values(|o: ADXOutput| o@)
                    + spec_adx_run(self@, all.subrange(idx as int, all.len() as int)).outputs,
            decreases inputs.len() - idx,
        {
            let ghost pre = self@;
            let ghost rest = all.subrange(idx as int, all.len() as int);
            proof {
                assert(rest.len() > 0);
                assert(rest[0] == all[idx as int]);
                assert(rest.subrange(1, rest.len() as int) =~= all.subrange(
                    idx as int + 1,
                    all.len() as int,
                ));
            }
            match self.calculate(inputs[idx]) {
                Ok(o) => {
                    results.push(o);
                    proof {
                        assert(results@.map_values(|o: ADXOutput| o@) =~= results@.subrange(
                            0,
                            results@.len() - 1,
                        ).map_values(|o: ADXOutput| o@).push(o@));
                        assert(spec_adx_run(pre, rest).outputs == seq![
                            spec_adx_output(pre, rest[0]),
                        ] + spec_adx_run(self@, rest.subrange(1, rest.len() as int)).outputs);
                        assert(spec_adx_run(m0, all).outputs == results@.map_values(
                            |o: ADXOutput| o@,
                        ) + spec_adx_run(
                            self@,
                            all.subrange(idx as int + 1, all.len() as int),
                        ).outputs);
                    }
                },
                Err(e) => {
                    proof {
                        assert(spec_adx_run(pre, rest).error == Some(e));
                        assert(spec_adx_run(pre, rest).state == pre);
                        assert(spec_adx_run(pre, rest).outputs =~= Seq::<AdxOutModel>::empty());
                        assert(results@.map_values(|o: ADXOutput| o@) + Seq::<
                            AdxOutModel,
                        >::empty() =~= results@.map_values(|o: ADXOutput| o@));
                    }
                    return Err(e);
                },
            }
            idx = idx + 1;
        }
        proof {
            let rest = all.subrange(idx as int, all.len() as int);
            assert(rest =~= Seq::<ADXInput>::empty());
            assert(results@.map_values(|o: ADXOutput| o@) + Seq::<AdxOutModel>::empty()
                =~= results@.map_values(|o: ADXOutput| o@));
        }
        Ok(results)
    }
}

/// The bar sequence formed from parallel high/low/close arrays.
pub open spec fn spec_adx_inputs(highs: Seq<i64>, lows: Seq<i64>, closes: Seq<i64>) -> Seq<
    ADXInput,
> {
    Seq::new(highs.len(), |k: int| ADXInput { high: highs[k], low: lows[k], close: closes[k] })
}

/// The configuration that `calculate_adx_simple` builds for a period.
pub open spec fn spec_adx_simple_config(period: usize) -> ADXConfig {
    ADXConfig { period, adx_smoothing: period, ..ADXConfig::spec_default() }
}

/// The run that `calculate_adx_simple` performs.
pub open spec fn spec_adx_simple_run(
    highs: Seq<i64>,
    lows: Seq<i64>,
    closes: Seq<i64>,
    period: usize,
) -> AdxRunModel {
    spec_adx_run(
        spec_adx_init(spec_adx_simple_config(period)),
        spec_adx_inputs(highs, lows, closes),
    )
}

/// Calculate the ADX value series for high/low/close arrays without keeping
/// a calculator: equal-length arrays are folded through a fresh calculator
/// with the given period, and the `adx` field of each output is collected.
/// Length mismatches are rejected; an empty series yields an empty result.
pub fn calculate_adx_simple(
    highs: &[i64],
    lows: &[i64],
    closes: &[i64],
    period: usize,
) -> (r: Result<Vec<i64>, ADXError>)
    ensures
        match r {
            Ok(v) => {
                &&& (highs@.len() == lows@.len() && highs@.len() == closes@.len())
                &&& (highs@.len() == 0 ==> v@.len() == 0)
                &&& (highs@.len() > 0 ==> period != 0)
                &&& (highs@.len() > 0 ==> spec_adx_simple_run(
                    highs@,
                    lows@,
                    closes@,
                    period,
                ).error is None)
                &&& (highs@.len() > 0 ==> v@.len() == spec_adx_simple_run(
                    highs@,
                    lows@,
                    closes@,
                    period,
                ).outputs.len())
                &&& (forall|k: int| 0 <= k < v@.len() && highs@.len() > 0 ==> v@[k]
                    == #[trigger] spec_adx_simple_run(highs@, lows@, closes@, period).outputs[k].adx)
            },
            Err(e) => {
                if highs@.len() != lows@.len() || highs@.len() != closes@.len() {
                    e is InvalidInput
                } else if highs@.len() == 0 {
                    false
                } else if period == 0 {
                    e == ADXError::InvalidPeriod
                } else {
                    Some(e) == spec_adx_simple_run(highs@, lows@, closes@, period).error
                }
            },
        },
{
    let len = highs.len();
    if len != lows.len() || len != closes.len() {
        return Err(ADXError::InvalidInput("All price arrays must have same length".to_string()));
    }
    if len == 0 {
        return Ok(Vec::new());
    }
    let mut adx_calculator = match ADX::with_period(period) {
        Ok(c) => c,
        Err(e) => {
            return Err(e);
        },
    };
    let ghost m0 = adx_calculator@;
    let ghost all = spec_adx_inputs(highs@, lows@, closes@);
    proof {
        assert(all.subrange(0, all.len() as int) =~= all);
    }
    let mut results: Vec<i64> = Vec::new();
    let mut idx: usize = 0;
    while idx < len
        invariant
            adx_wf(adx_calculator@),
            0 <= idx <= len,
            len == highs@.len() && len == lows@.len() && len == closes@.len(),
            period != 0,
            m0 == spec_adx_init(spec_adx_simple_config(period)),
            all == spec_adx_inputs(highs@, lows@, closes@),
            (spec_adx_run(m0, all).error is None) <==> (spec_adx_run(
                adx_calculator@,
                all.subrange(idx as int, all.len() as int),
            ).error is None),
            spec_adx_run(m0, all).error == spec_adx_run(
                adx_calculator@,
                all.subrange(idx as int, all.len() as int),
            ).error,
            results@.len() + spec_adx_run(
                adx_calculator@,
                all.subrange(idx as int, all.len() as int),
            ).outputs.len() == spec_adx_run(m0, all).outputs.len(),
            forall|k: int| 0 <= k < results@.len() ==> results@[k] == #[trigger] spec_adx_run(
                m0,
                all,
            ).outputs[k].adx,
            forall|k: int| results@.len() <= k < spec_adx_run(m0, all).outputs.len()
                ==> #[trigger] spec_adx_run(m0, all).outputs[k] == spec_adx_run(
                adx_calculator@,
                all.subrange(idx as int, all.len() as int),
            ).outputs[k - results@.len()],
        decreases len - idx,
    {
        let ghost pre = adx_calculator@;
        let ghost rest = all.subrange(idx as int, all.len() as int);
        proof {
            assert(rest.len() > 0);
            assert(rest[0] == all[idx as int]);
            assert(rest.subrange(1, rest.len() as int) =~= all.subrange(
                idx as int + 1,
                all.len() as int,
            ));
        }
        let input = ADXInput { high: highs[idx], low: lows[idx], close: closes[idx] };
        proof {
            assert(rest[0] == input);
        }
        let output = match adx_calculator.calculate(input) {
            Ok(o) => o,
            Err(e) => {
                proof {
                    assert(spec_adx_run(pre, rest).error == Some(e));
                }
                return Err(e);
            },
        };
        results.push(output.adx);
        proof {
            assert(spec_adx_run(pre, rest).outputs == seq![spec_adx_output(pre, rest[0])]
                + spec_adx_run(
                adx_calculator@,
                rest.subrange(1, rest.len() as int),
            ).outputs);
            assert(results@[results@.len() - 1] == spec_adx_output(pre, rest[0]).adx);
        }
        idx = idx + 1;
    }
    proof {
        let rest = all.subrange(idx as int, all.len() as int);
        assert(rest =~= Seq::<ADXInput>::empty());
    }
    Ok(results)
}

} // verus!
