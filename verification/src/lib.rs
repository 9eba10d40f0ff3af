//! Pivot Point SuperTrend (PPST) indicator over integer price ticks.
//!
//! All prices are fixed-point integers ("ticks"); the caller picks the scale
//! (for example hundredths of a currency unit). Every division in the
//! indicator is Euclidean (floor) division, so results are exact integers.
//!
//! The host boundary — sourcing candles, decoding parameters, serializing
//! the output — is an external collaborator; this crate is the computation
//! alone.

pub mod indicators;
pub mod ppst;
pub mod ticks;

pub use crate::indicators::pivot::{pivot_high, pivot_low};

use crate::ppst::PPST;
use vstd::prelude::*;
use vstd::string::StringExecFns;

verus! {

/// The outcome a host serializes: the final trend tag, or "unset" when no
/// band state was ever initialized.
pub struct Output {
    pub final_trend: String,
}

/// Read the final trend of a run.
pub fn final_output(run: &PPST) -> (o: Output)
    ensures
        run@.band matches Some(b) ==> (b.trend is Up ==> o.final_trend@ == "UP"@) && (
        b.trend is Down ==> o.final_trend@ == "DOWN"@),
        run@.band is None ==> o.final_trend@ == "unset"@,
{
    match run.supertrend_state {
        Some(st) => Output { final_trend: st.trend.to_string() },
        None => Output { final_trend: String::from_str("unset") },
    }
}

} // verus!
