//! The indicator components: volatility smoothing, pivot detection, the
//! pivot-driven center line and the trailing-band trend state machine.

pub mod atr;
pub mod pivot;
pub mod supertrend;
