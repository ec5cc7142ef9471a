//! Money Flow Index (MFI).
//!
//! A volume-weighted momentum oscillator: each bar's typical price times its
//! volume is classed as positive or negative money flow by the direction of
//! the typical price, and the index is the positive share of the flow over a
//! rolling window, scaled to `[0, HUNDRED]` fixed point. Money-flow products
//! are carried in 128-bit values.

use vstd::prelude::*;
use std::collections::VecDeque;

use crate::common::{
    valid_price, valid_period, opt_int, scaled_ratio_i128, lemma_div_nonneg_bound, PRICE_MAX,
    PERIOD_MAX, HUNDRED,
};

verus! {

/// Configuration for MFI calculation, thresholds in `SCALE` fixed point.
#[derive(Debug, Clone, Copy, PartialEq, Eq, Structural)]
pub struct MFIConfig {
    /// Rolling-window length.
    pub period: usize,
    /// Overbought threshold.
    pub overbought: i64,
    /// Oversold threshold.
    pub oversold: i64,
}

/// Default overbought threshold: 80 in `SCALE` fixed point.
pub const DEFAULT_MFI_OVERBOUGHT: i64 = 80_000_000;

/// Default oversold threshold: 20 in `SCALE` fixed point.
pub const DEFAULT_MFI_OVERSOLD: i64 = 20_000_000;

/// The neutral value emitted while the window is short: 50.
pub const MFI_NEUTRAL: i64 = 50_000_000;

/// Largest accepted money-flow product: `PRICE_MAX * PRICE_MAX`.
pub const MONEY_FLOW_MAX: i128 = 1_000_000_000_000_000_000_000_000;

impl MFIConfig {
    /// The default configuration: period 14, thresholds 80 and 20.
    pub open spec fn spec_default() -> MFIConfig {
        MFIConfig {
            period: 14,
            overbought: DEFAULT_MFI_OVERBOUGHT,
            oversold: DEFAULT_MFI_OVERSOLD,
        }
    }
}

impl Default for MFIConfig {
    fn default() -> (r: Self)
        ensures
            r == MFIConfig::spec_default(),
    {
        MFIConfig {
            period: 14,
            overbought: DEFAULT_MFI_OVERBOUGHT,
            oversold: DEFAULT_MFI_OVERSOLD,
        }
    }
}

/// One high/low/close/volume bar in caller units.
#[derive(Debug, Clone, Copy, PartialEq, Eq, Structural)]
pub struct MFIInput {
    /// High price.
    pub high: i64,
    /// Low price.
    pub low: i64,
    /// Close price.
    pub close: i64,
    /// Volume.
    pub volume: i64,
}

/// One money-flow record of the rolling window.
#[derive(Debug, Clone, Copy, PartialEq, Eq, Structural)]
pub struct MoneyFlow {
    /// Typical price of the bar.
    pub typical_price: i64,
    /// Typical price times volume.
    pub raw_money_flow: i128,
    /// Flow direction: 1 positive, -1 negative, 0 neutral.
    pub flow_direction: i64,
}

/// Market condition based on the MFI value.
#[derive(Debug, Clone, Copy, PartialEq, Eq, Structural)]
pub enum MFIMarketCondition {
    /// At or above the overbought threshold.
    Overbought,
    /// At or below the oversold threshold.
    Oversold,
    /// Between the thresholds.
    Normal,
    /// Not enough data yet.
    Insufficient,
}

/// Output of one MFI calculation.
#[derive(Debug, Clone, Copy, PartialEq, Eq, Structural)]
pub struct MFIOutput {
    /// Money Flow Index value, in `[0, HUNDRED]`.
    pub mfi: i64,
    /// Typical price of the bar.
    pub typical_price: i64,
    /// Typical price times volume.
    pub raw_money_flow: i128,
    /// Flow direction of the bar.
    pub flow_direction: i64,
    /// Market condition based on the thresholds.
    pub market_condition: MFIMarketCondition,
}

/// Mathematical view of one money-flow record.
#[verifier::ext_equal]
pub struct MfModel {
    pub typical_price: int,
    pub raw_money_flow: int,
    pub flow_direction: int,
}

impl View for MoneyFlow {
    type V = MfModel;

    open spec fn view(&self) -> MfModel {
        MfModel {
            typical_price: self.typical_price as int,
            raw_money_flow: self.raw_money_flow as int,
            flow_direction: self.flow_direction as int,
        }
    }
}

/// Mathematical view of the state.
#[verifier::ext_equal]
pub struct MfiStateModel {
    pub config: MFIConfig,
    pub money_flows: Seq<MfModel>,
    pub previous_typical_price: Option<int>,
    pub positive_money_flow_sum: int,
    pub negative_money_flow_sum: int,
    pub has_sufficient_data: bool,
}

/// Mathematical view of one output.
#[verifier::ext_equal]
pub struct MfiOutModel {
    pub mfi: int,
    pub typical_price: int,
    pub raw_money_flow: int,
    pub flow_direction: int,
    pub market_condition: MFIMarketCondition,
}

impl View for MFIOutput {
    type V = MfiOutModel;

    open spec fn view(&self) -> MfiOutModel {
        MfiOutModel {
            mfi: self.mfi as int,
            typical_price: self.typical_price as int,
            raw_money_flow: self.raw_money_flow as int,
            flow_direction: self.flow_direction as int,
            market_condition: self.market_condition,
        }
    }
}

/// MFI calculation state.
#[derive(Debug, Clone)]
pub struct MFIState {
    config: MFIConfig,
    money_flows: VecDeque<MoneyFlow>,
    previous_typical_price: Option<i64>,
    positive_money_flow_sum: i128,
    negative_money_flow_sum: i128,
    has_sufficient_data: bool,
}

impl View for MFIState {
    type V = MfiStateModel;

    closed spec fn view(&self) -> MfiStateModel {
        MfiStateModel {
            config: self.config,
            money_flows: self.money_flows@.map_values(|f: MoneyFlow| f@),
            previous_typical_price: opt_int(self.previous_typical_price),
            positive_money_flow_sum: self.positive_money_flow_sum as int,
            negative_money_flow_sum: self.negative_money_flow_sum as int,
            has_sufficient_data: self.has_sufficient_data,
        }
    }
}

/// The state a freshly built or reset calculator holds.
pub open spec fn spec_mfi_init(config: MFIConfig) -> MfiStateModel {
    MfiStateModel {
        config,
        money_flows: Seq::empty(),
        previous_typical_price: None,
        positive_money_flow_sum: 0,
        negative_money_flow_sum: 0,
        has_sufficient_data: false,
    }
}

/// Error types for MFI calculation.
#[derive(Debug, Clone, PartialEq)]
pub enum MFIError {
    /// Invalid input data (batch helpers: array length mismatch).
    InvalidInput(String),
    /// Invalid high/low/close relationship.
    InvalidOHLC,
    /// Negative volume provided.
    NegativeVolume,
    /// Price or volume outside the representable range `[0, PRICE_MAX]`.
    InvalidPrice,
    /// Period outside the accepted range `[1, PERIOD_MAX]`.
    InvalidPeriod,
    /// Thresholds outside `0 <= oversold < overbought <= HUNDRED`.
    InvalidThresholds,
    /// Division by zero in calculation (defensive; unreachable here).
    DivisionByZero,
}

/// The error a bar itself provokes, if any.
pub open spec fn spec_mfi_input_error(i: MFIInput) -> Option<MFIError> {
    if !valid_price(i.high) || !valid_price(i.low) || !valid_price(i.close) {
        Some(MFIError::InvalidPrice)
    } else if i.high < i.low {
        Some(MFIError::InvalidOHLC)
    } else if i.close < i.low || i.close > i.high {
        Some(MFIError::InvalidOHLC)
    } else if i.volume < 0 {
        Some(MFIError::NegativeVolume)
    } else if i.volume > PRICE_MAX {
        Some(MFIError::InvalidPrice)
    } else {
        None
    }
}

/// The error a configuration provokes, if any.
pub open spec fn spec_mfi_config_error(c: MFIConfig) -> Option<MFIError> {
    if !valid_period(c.period) {
        Some(MFIError::InvalidPeriod)
    } else if c.overbought <= c.oversold || c.overbought > HUNDRED || c.oversold < 0 {
        Some(MFIError::InvalidThresholds)
    } else {
        None
    }
}

/// The error one `calculate` call returns, if any: input checks come first.
pub open spec fn spec_mfi_error(m: MfiStateModel, i: MFIInput) -> Option<MFIError> {
    if spec_mfi_input_error(i) is Some {
        spec_mfi_input_error(i)
    } else {
        spec_mfi_config_error(m.config)
    }
}

/// Whether a bar is accepted in this state.
pub open spec fn spec_mfi_accepts(m: MfiStateModel, i: MFIInput) -> bool {
    spec_mfi_error(m, i) is None
}

/// The positive contribution of a money-flow record.
pub open spec fn spec_pos_contrib(f: MfModel) -> int {
    if f.flow_direction > 0 {
        f.raw_money_flow
    } else {
        0
    }
}

/// The negative contribution of a money-flow record.
pub open spec fn spec_neg_contrib(f: MfModel) -> int {
    if f.flow_direction < 0 {
        f.raw_money_flow
    } else {
        0
    }
}

/// Sum of the positive money flow of a window, oldest record first.
pub open spec fn spec_pos_flow_sum(s: Seq<MfModel>) -> int
    decreases s.len(),
{
    if s.len() == 0 {
        0
    } else {
        spec_pos_contrib(s[0]) + spec_pos_flow_sum(s.subrange(1, s.len() as int))
    }
}

/// Sum of the negative money flow of a window, oldest record first.
pub open spec fn spec_neg_flow_sum(s: Seq<MfModel>) -> int
    decreases s.len(),
{
    if s.len() == 0 {
        0
    } else {
        spec_neg_contrib(s[0]) + spec_neg_flow_sum(s.subrange(1, s.len() as int))
    }
}

/// Appending a record adds its contributions to the flow sums.
pub proof fn lemma_flow_sum_push(s: Seq<MfModel>, x: MfModel)
    ensures
        spec_pos_flow_sum(s.push(x)) == spec_pos_flow_sum(s) + spec_pos_contrib(x),
        spec_neg_flow_sum(s.push(x)) == spec_neg_flow_sum(s) + spec_neg_contrib(x),
    decreases s.len(),
{
    let p = s.push(x);
    assert(spec_pos_flow_sum(p) == spec_pos_contrib(p[0]) + spec_pos_flow_sum(
        p.subrange(1, p.len() as int),
    ));
    assert(spec_neg_flow_sum(p) == spec_neg_contrib(p[0]) + spec_neg_flow_sum(
        p.subrange(1, p.len() as int),
    ));
    if s.len() == 0 {
        assert(p[0] == x);
        assert(p.subrange(1, 1) =~= Seq::<MfModel>::empty());
        assert(spec_pos_flow_sum(p.subrange(1, 1)) == 0);
        assert(spec_neg_flow_sum(p.subrange(1, 1)) == 0);
    } else {
        let t = s.subrange(1, s.len() as int);
        lemma_flow_sum_push(t, x);
        assert(p.subrange(1, p.len() as int) =~= t.push(x));
        assert(p[0] == s[0]);
        assert(spec_pos_flow_sum(s) == spec_pos_contrib(s[0]) + spec_pos_flow_sum(t));
        assert(spec_neg_flow_sum(s) == spec_neg_contrib(s[0]) + spec_neg_flow_sum(t));
    }
}

/// In-range records give non-negative, bounded flow sums.
pub proof fn lemma_flow_sum_bounds(s: Seq<MfModel>, bound: int)
    requires
        0 <= bound,
        forall|j: int| 0 <= j < s.len() ==> 0 <= #[trigger] s[j].raw_money_flow <= bound,
    ensures
        0 <= spec_pos_flow_sum(s) <= s.len() * bound,
        0 <= spec_neg_flow_sum(s) <= s.len() * bound,
    decreases s.len(),
{
    if s.len() == 0 {
    } else {
        let t = s.subrange(1, s.len() as int);
        assert(forall|j: int| 0 <= j < t.len() ==> 0 <= #[trigger] t[j].raw_money_flow <= bound);
        lemma_flow_sum_bounds(t, bound);
        assert(t.len() * bound + bound == s.len() * bound) by (nonlinear_arith)
            requires
                t.len() + 1 == s.len(),
        ;
    }
}

/// The typical price of a bar, rounded toward minus infinity.
pub open spec fn spec_mfi_typical_price(i: MFIInput) -> int {
    (i.high + i.low + i.close) / 3
}

/// The flow direction of a typical price against the previous one.
pub open spec fn spec_mfi_direction(prev: Option<int>, tp: int) -> int {
    match prev {
        Some(p) => if tp > p {
            1
        } else if tp < p {
            -1
        } else {
            0
        },
        None => 0,
    }
}

/// The window after a bar: evict the oldest record once full, then append.
pub open spec fn spec_mfi_flows_next(m: MfiStateModel, f: MfModel) -> Seq<MfModel> {
    let t = if m.money_flows.len() >= m.config.period {
        m.money_flows.subrange(1, m.money_flows.len() as int)
    } else {
        m.money_flows
    };
    t.push(f)
}

/// The MFI value of a window: one hundred with no negative flow, zero with
/// no positive flow, else the positive share of the total flow.
pub open spec fn spec_mfi_value(suff: bool, pos: int, neg: int) -> int {
    if !suff {
        MFI_NEUTRAL as int
    } else if neg == 0 {
        HUNDRED as int
    } else if pos == 0 {
        0
    } else {
        HUNDRED * pos / (pos + neg)
    }
}

/// Market condition classification of an MFI value.
pub open spec fn spec_mfi_classify(c: MFIConfig, suff: bool, mfi: int) -> MFIMarketCondition {
    if !suff {
        MFIMarketCondition::Insufficient
    } else if mfi >= c.overbought {
        MFIMarketCondition::Overbought
    } else if mfi <= c.oversold {
        MFIMarketCondition::Oversold
    } else {
        MFIMarketCondition::Normal
    }
}

/// One full step on an accepted bar: the successor state and the emitted
/// output.
pub open spec fn spec_mfi_step(m: MfiStateModel, i: MFIInput) -> (MfiStateModel, MfiOutModel) {
    let tp = spec_mfi_typical_price(i);
    let rmf = tp * i.volume;
    let dir = spec_mfi_direction(m.previous_typical_price, tp);
    let f = MfModel { typical_price: tp, raw_money_flow: rmf, flow_direction: dir };
    let flows = spec_mfi_flows_next(m, f);
    let pos = spec_pos_flow_sum(flows);
    let neg = spec_neg_flow_sum(flows);
    let suff = flows.len() >= m.config.period;
    let mfi = spec_mfi_value(suff, pos, neg);
    let next = MfiStateModel {
        config: m.config,
        money_flows: flows,
        previous_typical_price: Some(tp),
        positive_money_flow_sum: pos,
        negative_money_flow_sum: neg,
        has_sufficient_data: suff,
    };
    let out = MfiOutModel {
        mfi,
        typical_price: tp,
        raw_money_flow: rmf,
        flow_direction: dir,
        market_condition: spec_mfi_classify(m.config, suff, mfi),
    };
    (next, out)
}

/// The successor state of one accepted bar.
pub open spec fn spec_mfi_next(m: MfiStateModel, i: MFIInput) -> MfiStateModel {
    spec_mfi_step(m, i).0
}

/// The output emitted for one accepted bar.
pub open spec fn spec_mfi_output(m: MfiStateModel, i: MFIInput) -> MfiOutModel {
    spec_mfi_step(m, i).1
}

/// Well-formedness of a state: an in-range window whose running sums are the
/// window's flow sums.
pub open spec fn mfi_wf(m: MfiStateModel) -> bool {
    &&& m.money_flows.len() <= m.config.period
    &&& (forall|j: int| 0 <= j < m.money_flows.len() ==> {
        &&& 0 <= #[trigger] m.money_flows[j].raw_money_flow <= MONEY_FLOW_MAX
        &&& 0 <= m.money_flows[j].typical_price <= PRICE_MAX
    })
    &&& m.positive_money_flow_sum == spec_pos_flow_sum(m.money_flows)
    &&& m.negative_money_flow_sum == spec_neg_flow_sum(m.money_flows)
    &&& match m.previous_typical_price {
        Some(t) => 0 <= t <= PRICE_MAX,
        None => true,
    }
}

impl MFIState {
    /// Build the empty state for a configuration.
    pub fn new(config: MFIConfig) -> (r: MFIState)
        ensures
            r@ == spec_mfi_init(config),
            mfi_wf(r@),
    {
        let r = MFIState {
            config,
            money_flows: VecDeque::new(),
            previous_typical_price: None,
            positive_money_flow_sum: 0,
            negative_money_flow_sum: 0,
            has_sufficient_data: false,
        };
        proof {
            assert(r@ =~= spec_mfi_init(config));
        }
        r
    }

    /// An owned copy of this state with the same mathematical view.
    pub fn snapshot(&self) -> (r: MFIState)
        ensures
            r@ == self@,
    {
        let r = MFIState {
            config: self.config,
            money_flows: self.money_flows.clone(),
            previous_typical_price: self.previous_typical_price,
            positive_money_flow_sum: self.positive_money_flow_sum,
            negative_money_flow_sum: self.negative_money_flow_sum,
            has_sufficient_data: self.has_sufficient_data,
        };
        proof {
            assert(r.money_flows@ =~= self.money_flows@);
            assert(r@ =~= self@);
        }
        r
    }
}

/// Money Flow Index calculator.
#[derive(Debug, Clone)]
pub struct MFI {
    state: MFIState,
}

impl View for MFI {
    type V = MfiStateModel;

    closed spec fn view(&self) -> MfiStateModel {
        self.state@
    }
}

impl MFI {
    /// Create a new MFI calculator with the default configuration.
    pub fn new() -> (r: Self)
        ensures
            r@ == spec_mfi_init(MFIConfig::spec_default()),
            mfi_wf(r@),
    {
        Self::with_config(MFIConfig::default())
    }

    /// Create a new MFI calculator with a custom period, which is rejected
    /// exactly when it is zero.
    pub fn with_period(period: usize) -> (r: Result<Self, MFIError>)
        ensures
            match r {
                Ok(c) => {
                    &&& period != 0
                    &&& c@ == spec_mfi_init(MFIConfig { period, ..MFIConfig::spec_default() })
                    &&& mfi_wf(c@)
                },
                Err(e) => period == 0 && e == MFIError::InvalidPeriod,
            },
    {
        if period == 0 {
            return Err(MFIError::InvalidPeriod);
        }
        let config = MFIConfig {
            period,
            overbought: DEFAULT_MFI_OVERBOUGHT,
            oversold: DEFAULT_MFI_OVERSOLD,
        };
        Ok(Self::with_config(config))
    }

    /// Create a new MFI calculator with a custom configuration; validation is
    /// deferred to `calculate`.
    pub fn with_config(config: MFIConfig) -> (r: Self)
        ensures
            r@ == spec_mfi_init(config),
            mfi_wf(r@),
    {
        MFI { state: MFIState::new(config) }
    }

    /// Reset the calculator state in place, preserving the configuration.
    pub fn reset(&mut self)
        ensures
            final(self)@ == spec_mfi_init(old(self)@.config),
            mfi_wf(final(self)@),
    {
        self.state = MFIState::new(self.state.config);
    }

    /// Current state, for snapshotting.
    pub fn get_state(&self) -> (r: &MFIState)
        ensures
            r@ == self@,
    {
        &self.state
    }

    /// Restore a previously taken state snapshot.
    pub fn set_state(&mut self, state: MFIState)
        requires
            mfi_wf(state@),
        ensures
            final(self)@ == state@,
    {
        self.state = state;
    }

    /// Current positive money-flow sum.
    pub fn positive_money_flow(&self) -> (r: i128)
        ensures
            r == self@.positive_money_flow_sum,
    {
        self.state.positive_money_flow_sum
    }

    /// Current negative money-flow sum.
    pub fn negative_money_flow(&self) -> (r: i128)
        ensures
            r == self@.negative_money_flow_sum,
    {
        self.state.negative_money_flow_sum
    }

    fn validate_input(&self, input: &MFIInput) -> (r: Result<(), MFIError>)
        ensures
            match r {
                Ok(()) => spec_mfi_input_error(*input) is None,
                Err(e) => spec_mfi_input_error(*input) == Some(e),
            },
    {
        if input.high < 0 || input.high > PRICE_MAX || input.low < 0 || input.low > PRICE_MAX
            || input.close < 0 || input.close > PRICE_MAX {
            return Err(MFIError::InvalidPrice);
        }
        if input.high < input.low {
            return Err(MFIError::InvalidOHLC);
        }
        if input.close < input.low || input.close > input.high {
            return Err(MFIError::InvalidOHLC);
        }
        if input.volume < 0 {
            return Err(MFIError::NegativeVolume);
        }
        if input.volume > PRICE_MAX {
            return Err(MFIError::InvalidPrice);
        }
        Ok(())
    }

    fn validate_config(&self) -> (r: Result<(), MFIError>)
        ensures
            match r {
                Ok(()) => spec_mfi_config_error(self@.config) is None,
                Err(e) => spec_mfi_config_error(self@.config) == Some(e),
            },
    {
        if self.state.config.period == 0 || self.state.config.period > PERIOD_MAX {
            return Err(MFIError::InvalidPeriod);
        }
        if self.state.config.overbought <= self.state.config.oversold
            || self.state.config.overbought > HUNDRED || self.state.config.oversold < 0 {
            return Err(MFIError::InvalidThresholds);
        }
        Ok(())
    }

    fn calculate_typical_price(&self, input: &MFIInput) -> (r: i64)
        requires
            (spec_mfi_input_error(*input) is None),
        ensures
            r == spec_mfi_typical_price(*input),
            0 <= r <= PRICE_MAX,
    {
        proof {
            lemma_div_nonneg_bound(input.high + input.low + input.close, 3, PRICE_MAX as int);
        }
        (((input.high as u64) + (input.low as u64) + (input.close as u64)) / 3) as i64
    }

    fn determine_flow_direction(&self, current_typical_price: i64) -> (r: i64)
        ensures
            r == spec_mfi_direction(self@.previous_typical_price, current_typical_price as int),
    {
        match self.state.previous_typical_price {
            Some(prev_tp) => {
                if current_typical_price > prev_tp {
                    1
                } else if current_typical_price < prev_tp {
                    -1
                } else {
                    0
                }
            },
            None => 0,
        }
    }

    /// Consume one bar. On any error the state is left untouched; on success
    /// the state advances by exactly one step of `spec_mfi_next` and the
    /// output is `spec_mfi_output`, whose index lies in `[0, HUNDRED]`.
    pub fn calculate(&mut self, input: MFIInput) -> (r: Result<MFIOutput, MFIError>)
        requires
            mfi_wf(old(self)@),
        ensures
            mfi_wf(final(self)@),
            match r {
                Ok(o) => {
                    &&& spec_mfi_accepts(old(self)@, input)
                    &&& final(self)@ == spec_mfi_next(old(self)@, input)
                    &&& o@ == spec_mfi_output(old(self)@, input)
                    &&& 0 <= o.mfi <= HUNDRED
                },
                Err(e) => {
                    &&& spec_mfi_error(old(self)@, input) == Some(e)
                    &&& final(self)@ == old(self)@
                },
            },
    {
        match self.validate_input(&input) {
            Ok(()) => {},
            Err(e) => {
                return Err(e);
            },
        }
        match self.validate_config() {
            Ok(()) => {},
            Err(e) => {
                return Err(e);
            },
        }
        let ghost m0 = old(self)@;
        let typical_price = self.calculate_typical_price(&input);
        proof {
            vstd::arithmetic::mul::lemma_mul_nonnegative(typical_price as int, input.volume as int);
            vstd::arithmetic::mul::lemma_mul_upper_bound(
                typical_price as int,
                PRICE_MAX as int,
                input.volume as int,
                PRICE_MAX as int,
            );
        }
        let raw_money_flow: i128 = ((typical_price as u128) * (input.volume as u128)) as i128;
        let flow_direction = self.determine_flow_direction(typical_price);
        let money_flow = MoneyFlow { typical_price, raw_money_flow, flow_direction };
        // Evict the oldest record and remove its contribution.
        if self.state.money_flows.len() >= self.state.config.period {
            proof {
                let t = m0.money_flows.subrange(1, m0.money_flows.len() as int);
                assert(forall|j: int| 0 <= j < t.len() ==> 0 <= #[trigger] t[j].raw_money_flow
                    <= MONEY_FLOW_MAX);
                lemma_flow_sum_bounds(t, MONEY_FLOW_MAX as int);
            }
            match self.state.money_flows.pop_front() {
                Some(oldest) => {
                    if oldest.flow_direction > 0 {
                        self.state.positive_money_flow_sum = self.state.positive_money_flow_sum
                            - oldest.raw_money_flow;
                    } else if oldest.flow_direction < 0 {
                        self.state.negative_money_flow_sum = self.state.negative_money_flow_sum
                            - oldest.raw_money_flow;
                    }
                },
                None => {},
            }
        }
        // Append the new record and add its contribution.
        proof {
            let cur = self.state.money_flows@.map_values(|f: MoneyFlow| f@);
            if m0.money_flows.len() >= m0.config.period {
                assert(cur =~= m0.money_flows.subrange(1, m0.money_flows.len() as int));
            } else {
                assert(cur =~= m0.money_flows);
            }
            assert forall|j: int| 0 <= j < cur.len() implies 0 <= #[trigger] cur[j].raw_money_flow
                <= MONEY_FLOW_MAX by {
                if m0.money_flows.len() >= m0.config.period {
                    assert(cur[j] == m0.money_flows[j + 1]);
                } else {
                    assert(cur[j] == m0.money_flows[j]);
                }
            }
            lemma_flow_sum_bounds(cur, MONEY_FLOW_MAX as int);
            let pre_len = cur.len() as int;
            assert(pre_len * MONEY_FLOW_MAX <= (PERIOD_MAX - 1) * MONEY_FLOW_MAX)
                by (nonlinear_arith)
                requires
                    pre_len <= PERIOD_MAX - 1,
            ;
            lemma_flow_sum_push(cur, money_flow@);
        }
        if money_flow.flow_direction > 0 {
            self.state.positive_money_flow_sum = self.state.positive_money_flow_sum
                + money_flow.raw_money_flow;
        } else if money_flow.flow_direction < 0 {
            self.state.negative_money_flow_sum = self.state.negative_money_flow_sum
                + money_flow.raw_money_flow;
        }
        self.state.money_flows.push_back(money_flow);
        let n = self.state.money_flows.len();
        self.state.has_sufficient_data = n >= self.state.config.period;
        let ghost flows = spec_mfi_flows_next(
            m0,
            MfModel {
                typical_price: typical_price as int,
                raw_money_flow: raw_money_flow as int,
                flow_direction: flow_direction as int,
            },
        );
        proof {
            assert(self.state.money_flows@.map_values(|f: MoneyFlow| f@) =~= flows);
            assert forall|j: int| 0 <= j < flows.len() implies 0 <= #[trigger] flows[
                j
            ].raw_money_flow <= MONEY_FLOW_MAX by {
                if j == flows.len() - 1 {
                } else if m0.money_flows.len() >= m0.config.period {
                    assert(flows[j] == m0.money_flows[j + 1]);
                } else {
                    assert(flows[j] == m0.money_flows[j]);
                }
            }
            lemma_flow_sum_bounds(flows, MONEY_FLOW_MAX as int);
            assert(flows.len() * MONEY_FLOW_MAX <= PERIOD_MAX * MONEY_FLOW_MAX)
                by (nonlinear_arith)
                requires
                    flows.len() <= PERIOD_MAX,
            ;
        }
        // Compute the index.
        let mfi: i64 = if self.state.has_sufficient_data {
            if self.state.negative_money_flow_sum == 0 {
                HUNDRED
            } else if self.state.positive_money_flow_sum == 0 {
                0
            } else {
                scaled_ratio_i128(
                    self.state.positive_money_flow_sum,
                    self.state.positive_money_flow_sum + self.state.negative_money_flow_sum,
                )
            }
        } else {
            MFI_NEUTRAL
        };
        let market_condition = if !self.state.has_sufficient_data {
            MFIMarketCondition::Insufficient
        } else if mfi >= self.state.config.overbought {
            MFIMarketCondition::Overbought
        } else if mfi <= self.state.config.oversold {
            MFIMarketCondition::Oversold
        } else {
            MFIMarketCondition::Normal
        };
        self.state.previous_typical_price = Some(typical_price);
        let out = MFIOutput {
            mfi,
            typical_price,
            raw_money_flow,
            flow_direction,
            market_condition,
        };
        proof {
            assert(final(self)@ =~= spec_mfi_next(m0, input));
            assert(out@ =~= spec_mfi_output(m0, input));
        }
        Ok(out)
    }
}

impl Default for MFI {
    fn default() -> (r: Self)
        ensures
            r@ == spec_mfi_init(MFIConfig::spec_default()),
    {
        Self::new()
    }
}

/// Result of folding a bar sequence through the calculator.
#[verifier::ext_equal]
pub struct MfiRunModel {
    pub state: MfiStateModel,
    pub outputs: Seq<MfiOutModel>,
    pub error: Option<MFIError>,
}

/// Fold a bar sequence through the calculator, stopping at the first error.
pub open spec fn spec_mfi_run(m: MfiStateModel, inputs: Seq<MFIInput>) -> MfiRunModel
    decreases inputs.len(),
{
    if inputs.len() == 0 {
        MfiRunModel { state: m, outputs: Seq::empty(), error: None }
    } else {
        let i = inputs[0];
        if spec_mfi_accepts(m, i) {
            let rest = spec_mfi_run(spec_mfi_next(m, i), inputs.subrange(1, inputs.len() as int));
            MfiRunModel {
                state: rest.state,
                outputs: seq![spec_mfi_output(m, i)] + rest.outputs,
                error: rest.error,
            }
        } else {
            MfiRunModel { state: m, outputs: Seq::empty(), error: spec_mfi_error(m, i) }
        }
    }
}

impl MFI {
    /// Calculate MFI for a batch of bars: a strict left-to-right fold that
    /// stops at the first error, whose partial state survives.
    pub fn calculate_batch(&mut self, inputs: &[MFIInput]) -> (r: Result<Vec<MFIOutput>, MFIError>)
        requires
            mfi_wf(old(self)@),
        ensures
            mfi_wf(final(self)@),
            final(self)@ == spec_mfi_run(old(self)@, inputs@).state,
            match r {
                Ok(v) => {
                    &&& (spec_mfi_run(old(self)@, inputs@).error is None)
                    &&& v@.map_values(|o: MFIOutput| o@) == spec_mfi_run(
                        old(self)@,
                        inputs@,
                    ).outputs
                },
                Err(e) => spec_mfi_run(old(self)@, inputs@).error == Some(e),
            },
    {
        let ghost m0 = old(self)@;
        let ghost all = inputs@;
        proof {
            assert(all.subrange(0, all.len() as int) =~= all);
        }
        let mut results: Vec<MFIOutput> = Vec::new();
        let mut idx: usize = 0;
        while idx < inputs.len()
            invariant
                mfi_wf(self@),
                0 <= idx <= inputs.len(),
                m0 == old(self)@,
                all == inputs@,
                spec_mfi_run(m0, all).state == spec_mfi_run(
                    self@,
                    all.subrange(idx as int, all.len() as int),
                ).state,
                spec_mfi_run(m0, all).error == spec_mfi_run(
                    self@,
                    all.subrange(idx as int, all.len() as int),
                ).error,
                spec_mfi_run(m0, all).outputs == results@.map_values(|o: MFIOutput| o@)
                    + spec_mfi_run(self@, all.subrange(idx as int, all.len() as int)).outputs,
            decreases inputs.len() - idx,
        {
            let ghost pre = self@;
            let ghost rest = all.subrange(idx as int, all.len() as int);
            proof {
                assert(rest.len() > 0);
                assert(rest[0] == all[idx as int]);
                assert(rest.subrange(1, rest.len() as int) =~= all.subrange(
                    idx as int + 1,
                    all.len() as int,
                ));
            }
            match self.calculate(inputs[idx]) {
                Ok(o) => {
                    results.push(o);
                    proof {
                        assert(results@.map_values(|o: MFIOutput| o@) =~= results@.subrange(
                            0,
                            results@.len() - 1,
                        ).map_values(|o: MFIOutput| o@).push(o@));
                        assert(spec_mfi_run(pre, rest).outputs == seq![
                            spec_mfi_output(pre, rest[0]),
                        ] + spec_mfi_run(self@, rest.subrange(1, rest.len() as int)).outputs);
                        assert(spec_mfi_run(m0, all).outputs == results@.map_values(
                            |o: MFIOutput| o@,
                        ) + spec_mfi_run(
                            self@,
                            all.subrange(idx as int + 1, all.len() as int),
                        ).outputs);
                    }
                },
                Err(e) => {
                    proof {
                        assert(spec_mfi_run(pre, rest).error == Some(e));
                        assert(spec_mfi_run(pre, rest).state == pre);
                        assert(spec_mfi_run(pre, rest).outputs =~= Seq::<MfiOutModel>::empty());
                        assert(results@.map_values(|o: MFIOutput| o@) + Seq::<
                            MfiOutModel,
                        >::empty() =~= results@.map_values(|o: MFIOutput| o@));
                    }
                    return Err(e);
                },
            }
            idx = idx + 1;
        }
        proof {
            let rest = all.subrange(idx as int, all.len() as int);
            assert(rest =~= Seq::<MFIInput>::empty());
            assert(results@.map_values(|o: MFIOutput| o@) + Seq::<MfiOutModel>::empty()
                =~= results@.map_values(|o: MFIOutput| o@));
        }
        Ok(results)
    }
}

/// The bar sequence formed from parallel high/low/close/volume arrays.
pub open spec fn spec_mfi_inputs(
    highs: Seq<i64>,
    lows: Seq<i64>,
    closes: Seq<i64>,
    volumes: Seq<i64>,
) -> Seq<MFIInput> {
    Seq::new(
        highs.len(),
        |k: int| MFIInput { high: highs[k], low: lows[k], close: closes[k], volume: volumes[k] },
    )
}

/// The run that `calculate_mfi_simple` performs.
pub open spec fn spec_mfi_simple_run(
    highs: Seq<i64>,
    lows: Seq<i64>,
    closes: Seq<i64>,
    volumes: Seq<i64>,
    period: usize,
) -> MfiRunModel {
    spec_mfi_run(
        spec_mfi_init(MFIConfig { period, ..MFIConfig::spec_default() }),
        spec_mfi_inputs(highs, lows, closes, volumes),
    )
}

/// Calculate the MFI value series for high/low/close/volume arrays without
/// keeping a calculator: equal-length arrays are folded through a fresh
/// calculator with the given period, and the `mfi` field of each output is
/// collected. Length mismatches are rejected; an empty series yields an
/// empty result.
pub fn calculate_mfi_simple(
    highs: &[i64],
    lows: &[i64],
    closes: &[i64],
    volumes: &[i64],
    period: usize,
) -> (r: Result<Vec<i64>, MFIError>)
    ensures
        match r {
            Ok(v) => {
                &&& (highs@.len() == lows@.len() && highs@.len() == closes@.len() && highs@.len()
                    == volumes@.len())
                &&& (highs@.len() == 0 ==> v@.len() == 0)
                &&& (highs@.len() > 0 ==> period != 0)
                &&& (highs@.len() > 0 ==> spec_mfi_simple_run(
                    highs@,
                    lows@,
                    closes@,
                    volumes@,
                    period,
                ).error is None)
                &&& (highs@.len() > 0 ==> v@.len() == spec_mfi_simple_run(
                    highs@,
                    lows@,
                    closes@,
                    volumes@,
                    period,
                ).outputs.len())
                &&& (forall|k: int| 0 <= k < v@.len() && highs@.len() > 0 ==> v@[k]
                    == #[trigger] spec_mfi_simple_run(
                    highs@,
                    lows@,
                    closes@,
                    volumes@,
                    period,
                ).outputs[k].mfi)
            },
            Err(e) => {
                if highs@.len() != lows@.len() || highs@.len() != closes@.len() || highs@.len()
                    != volumes@.len() {
                    e is InvalidInput
                } else if highs@.len() == 0 {
                    false
                } else if period == 0 {
                    e == MFIError::InvalidPeriod
                } else {
                    Some(e) == spec_mfi_simple_run(highs@, lows@, closes@, volumes@, period).error
                }
            },
        },
{
    let len = highs.len();
    if len != lows.len() || len != closes.len() || len != volumes.len() {
        return Err(
            MFIError::InvalidInput("All price and volume arrays must have same length".to_string()),
        );
    }
    if len == 0 {
        return Ok(Vec::new());
    }
    let mut mfi_calculator = match MFI::with_period(period) {
        Ok(c) => c,
        Err(e) => {
            return Err(e);
        },
    };
    let ghost m0 = mfi_calculator@;
    let ghost all = spec_mfi_inputs(highs@, lows@, closes@, volumes@);
    proof {
        assert(all.subrange(0, all.len() as int) =~= all);
    }
    let mut results: Vec<i64> = Vec::new();
    let mut idx: usize = 0;
    while idx < len
        invariant
            mfi_wf(mfi_calculator@),
            0 <= idx <= len,
            len == highs@.len() && len == lows@.len() && len == closes@.len() && len
                == volumes@.len(),
            period != 0,
            m0 == spec_mfi_init(MFIConfig { period, ..MFIConfig::spec_default() }),
            all == spec_mfi_inputs(highs@, lows@, closes@, volumes@),
            spec_mfi_run(m0, all).error == spec_mfi_run(
                mfi_calculator@,
                all.subrange(idx as int, all.len() as int),
            ).error,
            results@.len() + spec_mfi_run(
                mfi_calculator@,
                all.subrange(idx as int, all.len() as int),
            ).outputs.len() == spec_mfi_run(m0, all).outputs.len(),
            forall|k: int| 0 <= k < results@.len() ==> results@[k] == #[trigger] spec_mfi_run(
                m0,
                all,
            ).outputs[k].mfi,
            forall|k: int| results@.len() <= k < spec_mfi_run(m0, all).outputs.len()
                ==> #[trigger] spec_mfi_run(m0, all).outputs[k] == spec_mfi_run(
                mfi_calculator@,
                all.subrange(idx as int, all.len() as int),
            ).outputs[k - results@.len()],
        decreases len - idx,
    {
        let ghost pre = mfi_calculator@;
        let ghost rest = all.subrange(idx as int, all.len() as int);
        proof {
            assert(rest.len() > 0);
            assert(rest[0] == all[idx as int]);
            assert(rest.subrange(1, rest.len() as int) =~= all.subrange(
                idx as int + 1,
                all.len() as int,
            ));
        }
        let input = MFIInput {
            high: highs[idx],
            low: lows[idx],
            close: closes[idx],
            volume: volumes[idx],
        };
        proof {
            assert(rest[0] == input);
        }
        let output = match mfi_calculator.calculate(input) {
            Ok(o) => o,
            Err(e) => {
                proof {
                    assert(spec_mfi_run(pre, rest).error == Some(e));
                }
                return Err(e);
            },
        };
        results.push(output.mfi);
        proof {
            assert(spec_mfi_run(pre, rest).outputs == seq![spec_mfi_output(pre, rest[0])]
                + spec_mfi_run(
                mfi_calculator@,
                rest.subrange(1, rest.len() as int),
            ).outputs);
            assert(results@[results@.len() - 1] == spec_mfi_output(pre, rest[0]).mfi);
        }
        idx = idx + 1;
    }
    proof {
        let rest = all.subrange(idx as int, all.len() as int);
        assert(rest =~= Seq::<MFIInput>::empty());
    }
    Ok(results)
}

} // verus!
