//! Streaming technical-analysis indicators over integer fixed-point prices.
//!
//! Each indicator consumes one price bar at a time, keeps bounded internal
//! state, and emits one output (or an error) per bar. The trend engines —
//! the Average Directional Index pipeline and the Parabolic Stop-and-Reverse
//! state machine — carry multi-stage recurrences and explicit phase tracking;
//! the remaining indicators are rolling-window computations of the same
//! per-bar shape. Every public function states its exact behaviour in a
//! contract over a mathematical model of the calculator state, and the
//! shared fixed-point domain is described in [`common`].

pub mod adx;
pub mod cci;
pub mod common;
pub mod mfi;
pub mod obv;
pub mod parabolic_sar;
pub mod std_dev;
pub mod williams_r;
