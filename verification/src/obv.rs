//! On Balance Volume (OBV).
//!
//! A cumulative volume-flow indicator: volume is added on bars that close
//! higher than the previous bar, subtracted on bars that close lower, and
//! left alone on unchanged closes. The running total saturates at the `i64`
//! bounds instead of wrapping.

use vstd::prelude::*;

use crate::common::{valid_price, opt_int, PRICE_MAX};

verus! {

/// Configuration for OBV calculation.
#[derive(Debug, Clone, Copy, PartialEq, Eq, Structural)]
pub struct OBVConfig {
    /// Whether to use cumulative calculation.
    pub cumulative: bool,
}

impl OBVConfig {
    /// The default configuration: cumulative.
    pub open spec fn spec_default() -> OBVConfig {
        OBVConfig { cumulative: true }
    }
}

impl Default for OBVConfig {
    fn default() -> (r: Self)
        ensures
            r == OBVConfig::spec_default(),
    {
        OBVConfig { cumulative: true }
    }
}

/// One close/volume observation in caller units.
#[derive(Debug, Clone, Copy, PartialEq, Eq, Structural)]
pub struct OBVInput {
    /// Current closing price.
    pub close: i64,
    /// Current volume.
    pub volume: i64,
}

/// Output of one OBV calculation.
#[derive(Debug, Clone, Copy, PartialEq, Eq, Structural)]
pub struct OBVOutput {
    /// On Balance Volume running total.
    pub obv: i64,
    /// Volume flow direction: 1 up, -1 down, 0 unchanged or first bar.
    pub flow_direction: i64,
}

/// Mathematical view of the state.
#[verifier::ext_equal]
pub struct ObvStateModel {
    pub config: OBVConfig,
    pub previous_close: Option<int>,
    pub cumulative_obv: int,
    pub is_first: bool,
}

/// Mathematical view of one output.
#[verifier::ext_equal]
pub struct ObvOutModel {
    pub obv: int,
    pub flow_direction: int,
}

impl View for OBVOutput {
    type V = ObvOutModel;

    open spec fn view(&self) -> ObvOutModel {
        ObvOutModel { obv: self.obv as int, flow_direction: self.flow_direction as int }
    }
}

/// OBV calculation state.
#[derive(Debug, Clone)]
pub struct OBVState {
    config: OBVConfig,
    previous_close: Option<i64>,
    cumulative_obv: i64,
    is_first: bool,
}

impl View for OBVState {
    type V = ObvStateModel;

    closed spec fn view(&self) -> ObvStateModel {
        ObvStateModel {
            config: self.config,
            previous_close: opt_int(self.previous_close),
            cumulative_obv: self.cumulative_obv as int,
            is_first: self.is_first,
        }
    }
}

/// The state a freshly built or reset calculator holds.
pub open spec fn spec_obv_init(config: OBVConfig) -> ObvStateModel {
    ObvStateModel { config, previous_close: None, cumulative_obv: 0, is_first: true }
}

/// Error types for OBV calculation.
#[derive(Debug, Clone, PartialEq)]
pub enum OBVError {
    /// Invalid input data (batch helpers: array length mismatch).
    InvalidInput(String),
    /// Negative volume provided.
    NegativeVolume,
    /// Price or volume outside the representable range `[0, PRICE_MAX]`.
    InvalidPrice,
}

/// The error an observation provokes, if any.
pub open spec fn spec_obv_error(i: OBVInput) -> Option<OBVError> {
    if i.volume < 0 {
        Some(OBVError::NegativeVolume)
    } else if !valid_price(i.close) || !valid_price(i.volume) {
        Some(OBVError::InvalidPrice)
    } else {
        None
    }
}

/// Whether an observation is accepted.
pub open spec fn spec_obv_accepts(i: OBVInput) -> bool {
    spec_obv_error(i) is None
}

/// Addition saturating at `i64::MAX`.
pub open spec fn spec_sat_add(a: int, v: int) -> int {
    if a + v > i64::MAX {
        i64::MAX as int
    } else {
        a + v
    }
}

/// Subtraction saturating at `i64::MIN`.
pub open spec fn spec_sat_sub(a: int, v: int) -> int {
    if a - v < i64::MIN {
        i64::MIN as int
    } else {
        a - v
    }
}

/// The flow direction of a close against the previous one.
pub open spec fn spec_obv_direction(close: int, prev: int) -> int {
    if close > prev {
        1
    } else if close < prev {
        -1
    } else {
        0
    }
}

/// One full step on an accepted observation: the successor state and the
/// emitted output. The first observation seeds the total with its volume.
pub open spec fn spec_obv_step(m: ObvStateModel, i: OBVInput) -> (ObvStateModel, ObvOutModel) {
    if m.is_first {
        let next = ObvStateModel {
            previous_close: Some(i.close as int),
            cumulative_obv: i.volume as int,
            is_first: false,
            ..m
        };
        (next, ObvOutModel { obv: i.volume as int, flow_direction: 0 })
    } else {
        let prev = m.previous_close->Some_0;
        let dir = spec_obv_direction(i.close as int, prev);
        let obv = if dir > 0 {
            spec_sat_add(m.cumulative_obv, i.volume as int)
        } else if dir < 0 {
            spec_sat_sub(m.cumulative_obv, i.volume as int)
        } else {
            m.cumulative_obv
        };
        let next = ObvStateModel {
            previous_close: Some(i.close as int),
            cumulative_obv: obv,
            ..m
        };
        (next, ObvOutModel { obv, flow_direction: dir })
    }
}

/// The successor state of one accepted observation.
pub open spec fn spec_obv_next(m: ObvStateModel, i: OBVInput) -> ObvStateModel {
    spec_obv_step(m, i).0
}

/// The output emitted for one accepted observation.
pub open spec fn spec_obv_output(m: ObvStateModel, i: OBVInput) -> ObvOutModel {
    spec_obv_step(m, i).1
}

/// Well-formedness of a state.
pub open spec fn obv_wf(m: ObvStateModel) -> bool {
    &&& (m.is_first ==> m.previous_close is None)
    &&& (!m.is_first ==> match m.previous_close {
        Some(c) => 0 <= c <= PRICE_MAX,
        None => false,
    })
    &&& i64::MIN <= m.cumulative_obv <= i64::MAX
}

/// The step function preserves well-formedness.
pub proof fn lemma_obv_step_wf(m: ObvStateModel, i: OBVInput)
    requires
        obv_wf(m),
        spec_obv_accepts(i),
    ensures
        obv_wf(spec_obv_next(m, i)),
{
}

impl OBVState {
    /// Build the empty state for a configuration.
    pub fn new(config: OBVConfig) -> (r: OBVState)
        ensures
            r@ == spec_obv_init(config),
            obv_wf(r@),
    {
        let r = OBVState { config, previous_close: None, cumulative_obv: 0, is_first: true };
        proof {
            assert(r@ =~= spec_obv_init(config));
        }
        r
    }

    /// An owned copy of this state with the same mathematical view.
    pub fn snapshot(&self) -> (r: OBVState)
        ensures
            r@ == self@,
    {
        let r = OBVState {
            config: self.config,
            previous_close: self.previous_close,
            cumulative_obv: self.cumulative_obv,
            is_first: self.is_first,
        };
        proof {
            assert(r@ =~= self@);
        }
        r
    }
}

/// On Balance Volume calculator.
#[derive(Debug, Clone)]
pub struct OBV {
    state: OBVState,
}

impl View for OBV {
    type V = ObvStateModel;

    closed spec fn view(&self) -> ObvStateModel {
        self.state@
    }
}

impl OBV {
    /// Create a new OBV calculator with the default configuration.
    pub fn new() -> (r: Self)
        ensures
            r@ == spec_obv_init(OBVConfig::spec_default()),
            obv_wf(r@),
    {
        Self::with_config(OBVConfig::default())
    }

    /// Create a new OBV calculator with a custom configuration.
    pub fn with_config(config: OBVConfig) -> (r: Self)
        ensures
            r@ == spec_obv_init(config),
            obv_wf(r@),
    {
        OBV { state: OBVState::new(config) }
    }

    /// Reset the calculator state in place, preserving the configuration.
    pub fn reset(&mut self)
        ensures
            final(self)@ == spec_obv_init(old(self)@.config),
            obv_wf(final(self)@),
    {
        self.state = OBVState::new(self.state.config);
    }

    /// Current state, for snapshotting.
    pub fn get_state(&self) -> (r: &OBVState)
        ensures
            r@ == self@,
    {
        &self.state
    }

    /// Restore a previously taken state snapshot.
    pub fn set_state(&mut self, state: OBVState)
        requires
            obv_wf(state@),
        ensures
            final(self)@ == state@,
    {
        self.state = state;
    }

    fn validate_input(&self, input: &OBVInput) -> (r: Result<(), OBVError>)
        ensures
            match r {
                Ok(()) => spec_obv_error(*input) is None,
                Err(e) => spec_obv_error(*input) == Some(e),
            },
    {
        if input.volume < 0 {
            return Err(OBVError::NegativeVolume);
        }
        if input.close < 0 || input.close > PRICE_MAX || input.volume > PRICE_MAX {
            return Err(OBVError::InvalidPrice);
        }
        Ok(())
    }

    fn determine_flow_direction(&self, current_close: i64, previous_close: i64) -> (r: i64)
        ensures
            r == spec_obv_direction(current_close as int, previous_close as int),
    {
        if current_close > previous_close {
            1
        } else if current_close < previous_close {
            -1
        } else {
            0
        }
    }

    /// Consume one observation. On any error the state is left untouched; on
    /// success the state advances by exactly one step of `spec_obv_next` and
    /// the output is `spec_obv_output`.
    pub fn calculate(&mut self, input: OBVInput) -> (r: Result<OBVOutput, OBVError>)
        requires
            obv_wf(old(self)@),
        ensures
            obv_wf(final(self)@),
            match r {
                Ok(o) => {
                    &&& spec_obv_accepts(input)
                    &&& final(self)@ == spec_obv_next(old(self)@, input)
                    &&& o@ == spec_obv_output(old(self)@, input)
                },
                Err(e) => {
                    &&& spec_obv_error(input) == Some(e)
                    &&& final(self)@ == old(self)@
                },
            },
    {
        match self.validate_input(&input) {
            Ok(()) => {},
            Err(e) => {
                return Err(e);
            },
        }
        let flow_direction: i64;
        if self.state.is_first {
            self.state.previous_close = Some(input.close);
            self.state.cumulative_obv = input.volume;
            self.state.is_first = false;
            flow_direction = 0;
        } else {
            let prev_close = match self.state.previous_close {
                Some(c) => c,
                None => input.close,
            };
            let direction = self.determine_flow_direction(input.close, prev_close);
            if direction > 0 {
                if self.state.cumulative_obv <= i64::MAX - input.volume {
                    self.state.cumulative_obv = self.state.cumulative_obv + input.volume;
                } else {
                    self.state.cumulative_obv = i64::MAX;
                }
            } else if direction < 0 {
                if self.state.cumulative_obv >= i64::MIN + input.volume {
                    self.state.cumulative_obv = self.state.cumulative_obv - input.volume;
                } else {
                    self.state.cumulative_obv = i64::MIN;
                }
            }
            self.state.previous_close = Some(input.close);
            flow_direction = direction;
        }
        let out = OBVOutput { obv: self.state.cumulative_obv, flow_direction };
        proof {
            assert(final(self)@ =~= spec_obv_next(old(self)@, input));
            assert(out@ =~= spec_obv_output(old(self)@, input));
        }
        Ok(out)
    }
}

impl Default for OBV {
    fn default() -> (r: Self)
        ensures
            r@ == spec_obv_init(OBVConfig::spec_default()),
    {
        Self::new()
    }
}

/// Result of folding an observation sequence through the calculator.
#[verifier::ext_equal]
pub struct ObvRunModel {
    pub state: ObvStateModel,
    pub outputs: Seq<ObvOutModel>,
    pub error: Option<OBVError>,
}

/// Fold an observation sequence through the calculator, stopping at the
/// first error.
pub open spec fn spec_obv_run(m: ObvStateModel, inputs: Seq<OBVInput>) -> ObvRunModel
    decreases inputs.len(),
{
    if inputs.len() == 0 {
        ObvRunModel { state: m, outputs: Seq::empty(), error: None }
    } else {
        let i = inputs[0];
        if spec_obv_accepts(i) {
            let rest = spec_obv_run(spec_obv_next(m, i), inputs.subrange(1, inputs.len() as int));
            ObvRunModel {
                state: rest.state,
                outputs: seq![spec_obv_output(m, i)] + rest.outputs,
                error: rest.error,
            }
        } else {
            ObvRunModel { state: m, outputs: Seq::empty(), error: spec_obv_error(i) }
        }
    }
}

impl OBV {
    /// Calculate OBV for a batch of observations: a strict left-to-right fold
    /// that stops at the first error, whose partial state survives.
    pub fn calculate_batch(&mut self, inputs: &[OBVInput]) -> (r: Result<Vec<OBVOutput>, OBVError>)
        requires
            obv_wf(old(self)@),
        ensures
            obv_wf(final(self)@),
            final(self)@ == spec_obv_run(old(self)@, inputs@).state,
            match r {
                Ok(v) => {
                    &&& (spec_obv_run(old(self)@, inputs@).error is None)
                    &&& v@.map_values(|o: OBVOutput| o@) == spec_obv_run(
                        old(self)@,
                        inputs@,
                    ).outputs
                },
                Err(e) => spec_obv_run(old(self)@, inputs@).error == Some(e),
            },
    {
        let ghost m0 = old(self)@;
        let ghost all = inputs@;
        proof {
            assert(all.subrange(0, all.len() as int) =~= all);
        }
        let mut results: Vec<OBVOutput> = Vec::new();
        let mut idx: usize = 0;
        while idx < inputs.len()
            invariant
                obv_wf(self@),
                0 <= idx <= inputs.len(),
                m0 == old(self)@,
                all == inputs@,
                spec_obv_run(m0, all).state == spec_obv_run(
                    self@,
                    all.subrange(idx as int, all.len() as int),
                ).state,
                spec_obv_run(m0, all).error == spec_obv_run(
                    self@,
                    all.subrange(idx as int, all.len() as int),
                ).error,
                spec_obv_run(m0, all).outputs == results@.map_values(|o: OBVOutput| o@)
                    + spec_obv_run(self@, all.subrange(idx as int, all.len() as int)).outputs,
            decreases inputs.len() - idx,
        {
            let ghost pre = self@;
            let ghost rest = all.subrange(idx as int, all.len() as int);
            proof {
                assert(rest.len() > 0);
                assert(rest[0] == all[idx as int]);
                assert(rest.subrange(1, rest.len() as int) =~= all.subrange(
                    idx as int + 1,
                    all.len() as int,
                ));
            }
            match self.calculate(inputs[idx]) {
                Ok(o) => {
                    results.push(o);
                    proof {
                        assert(results@.map_values(|o: OBVOutput| o@) =~= results@.subrange(
                            0,
                            results@.len() - 1,
                        ).map_values(|o: OBVOutput| o@).push(o@));
                        assert(spec_obv_run(pre, rest).outputs == seq![
                            spec_obv_output(pre, rest[0]),
                        ] + spec_obv_run(self@, rest.subrange(1, rest.len() as int)).outputs);
                        assert(spec_obv_run(m0, all).outputs == results@.map_values(
                            |o: OBVOutput| o@,
                        ) + spec_obv_run(
                            self@,
                            all.subrange(idx as int + 1, all.len() as int),
                        ).outputs);
                    }
                },
                Err(e) => {
                    proof {
                        assert(spec_obv_run(pre, rest).error == Some(e));
                        assert(spec_obv_run(pre, rest).state == pre);
                        assert(spec_obv_run(pre, rest).outputs =~= Seq::<ObvOutModel>::empty());
                        assert(results@.map_values(|o: OBVOutput| o@) + Seq::<
                            ObvOutModel,
                        >::empty() =~= results@.map_values(|o: OBVOutput| o@));
                    }
                    return Err(e);
                },
            }
            idx = idx + 1;
        }
        proof {
            let rest = all.subrange(idx as int, all.len() as int);
            assert(rest =~= Seq::<OBVInput>::empty());
            assert(results@.map_values(|o: OBVOutput| o@) + Seq::<ObvOutModel>::empty()
                =~= results@.map_values(|o: OBVOutput| o@));
        }
        Ok(results)
    }
}

/// The observation sequence formed from parallel close/volume arrays.
pub open spec fn spec_obv_inputs(closes: Seq<i64>, volumes: Seq<i64>) -> Seq<OBVInput> {
    Seq::new(closes.len(), |k: int| OBVInput { close: closes[k], volume: volumes[k] })
}

/// The run that `calculate_obv_simple` performs.
pub open spec fn spec_obv_simple_run(closes: Seq<i64>, volumes: Seq<i64>) -> ObvRunModel {
    spec_obv_run(spec_obv_init(OBVConfig::spec_default()), spec_obv_inputs(closes, volumes))
}

/// Calculate the OBV series for close/volume arrays without keeping a
/// calculator: equal-length arrays are folded through a fresh calculator and
/// the `obv` field of each output is collected. Length mismatches are
/// rejected; an empty series yields an empty result.
pub fn calculate_obv_simple(close_prices: &[i64], volumes: &[i64]) -> (r: Result<
    Vec<i64>,
    OBVError,
>)
    ensures
        match r {
            Ok(v) => {
                &&& close_prices@.len() == volumes@.len()
                &&& (spec_obv_simple_run(close_prices@, volumes@).error is None)
                &&& v@.len() == spec_obv_simple_run(close_prices@, volumes@).outputs.len()
                &&& (forall|k: int| 0 <= k < v@.len() ==> v@[k] == #[trigger] spec_obv_simple_run(
                    close_prices@,
                    volumes@,
                ).outputs[k].obv)
            },
            Err(e) => {
                if close_prices@.len() != volumes@.len() {
                    e is InvalidInput
                } else {
                    Some(e) == spec_obv_simple_run(close_prices@, volumes@).error
                }
            },
        },
{
    if close_prices.len() != volumes.len() {
        return Err(
            OBVError::InvalidInput("Close prices and volumes must have same length".to_string()),
        );
    }
    let mut obv_calculator = OBV::new();
    let ghost m0 = obv_calculator@;
    let ghost all = spec_obv_inputs(close_prices@, volumes@);
    proof {
        assert(all.subrange(0, all.len() as int) =~= all);
    }
    let len = close_prices.len();
    let mut results: Vec<i64> = Vec::new();
    let mut idx: usize = 0;
    while idx < len
        invariant
            obv_wf(obv_calculator@),
            0 <= idx <= len,
            len == close_prices@.len() && len == volumes@.len(),
            m0 == spec_obv_init(OBVConfig::spec_default()),
            all == spec_obv_inputs(close_prices@, volumes@),
            spec_obv_run(m0, all).error == spec_obv_run(
                obv_calculator@,
                all.subrange(idx as int, all.len() as int),
            ).error,
            results@.len() + spec_obv_run(
                obv_calculator@,
                all.subrange(idx as int, all.len() as int),
            ).outputs.len() == spec_obv_run(m0, all).outputs.len(),
            forall|k: int| 0 <= k < results@.len() ==> results@[k] == #[trigger] spec_obv_run(
                m0,
                all,
            ).outputs[k].obv,
            forall|k: int| results@.len() <= k < spec_obv_run(m0, all).outputs.len()
                ==> #[trigger] spec_obv_run(m0, all).outputs[k] == spec_obv_run(
                obv_calculator@,
                all.subrange(idx as int, all.len() as int),
            ).outputs[k - results@.len()],
        decreases len - idx,
    {
        let ghost pre = obv_calculator@;
        let ghost rest = all.subrange(idx as int, all.len() as int);
        proof {
            assert(rest.len() > 0);
            assert(rest[0] == all[idx as int]);
            assert(rest.subrange(1, rest.len() as int) =~= all.subrange(
                idx as int + 1,
                all.len() as int,
            ));
        }
        let input = OBVInput { close: close_prices[idx], volume: volumes[idx] };
        proof {
            assert(rest[0] == input);
        }
        let output = match obv_calculator.calculate(input) {
            Ok(o) => o,
            Err(e) => {
                proof {
                    assert(spec_obv_run(pre, rest).error == Some(e));
                }
                return Err(e);
            },
        };
        results.push(output.obv);
        proof {
            assert(spec_obv_run(pre, rest).outputs == seq![spec_obv_output(pre, rest[0])]
                + spec_obv_run(
                obv_calculator@,
                rest.subrange(1, rest.len() as int),
            ).outputs);
            assert(results@[results@.len() - 1] == spec_obv_output(pre, rest[0]).obv);
        }
        idx = idx + 1;
    }
    proof {
        let rest = all.subrange(idx as int, all.len() as int);
        assert(rest =~= Seq::<OBVInput>::empty());
    }
    Ok(results)
}

} // verus!
