//! The trailing-band trend state machine.
//!
//! Bands are volatility-scaled offsets around the center line. Per bar they
//! ratchet: while the previous close stays above the old lower band, the
//! lower band may only rise; while it stays below the old upper band, the
//! upper band may only fall. The trend flips only when the close strictly
//! crosses the old opposite band.

use vstd::math::{max, min};
use vstd::prelude::*;
use vstd::string::StringExecFns;

verus! {

/// The active trend direction.
#[derive(Debug, Clone, Copy, PartialEq, Eq, Structural)]
pub enum Trend {
    Up,
    Down,
}

impl Trend {
    /// The wire tag of this trend.
    pub fn to_string(&self) -> (r: String)
        ensures
            self is Up ==> r@ == "UP"@,
            self is Down ==> r@ == "DOWN"@,
    {
        match self {
            Trend::Up => String::from_str("UP"),
            Trend::Down => String::from_str("DOWN"),
        }
    }
}

/// The kind of a trend-reversal signal.
#[derive(Debug, Clone, Copy, PartialEq, Eq, Structural)]
pub enum SuperTrendSignal {
    Long,
    Short,
}

impl SuperTrendSignal {
    /// The wire tag of this signal kind.
    pub fn to_string(&self) -> (r: String)
        ensures
            self is Long ==> r@ == "LONG"@,
            self is Short ==> r@ == "SHORT"@,
    {
        match self {
            SuperTrendSignal::Long => String::from_str("LONG"),
            SuperTrendSignal::Short => String::from_str("SHORT"),
        }
    }
}

/// The mathematical state of the band machine.
pub ghost struct BandModel {
    pub trend: Trend,
    pub upper: int,
    pub lower: int,
}

/// The state the machine starts in: the basic bands, trending up.
pub open spec fn band_init(basic_upper: int, basic_lower: int) -> BandModel {
    BandModel { trend: Trend::Up, upper: basic_upper, lower: basic_lower }
}

/// One bar's transition. The trend decision reads the bands from before
/// this update; the band ratchet reads the previous close against them.
pub open spec fn band_step(
    b: BandModel,
    basic_upper: int,
    basic_lower: int,
    close: int,
    prev_close: int,
) -> BandModel {
    BandModel {
        trend: if close > b.upper {
            Trend::Up
        } else if close < b.lower {
            Trend::Down
        } else {
            b.trend
        },
        upper: if prev_close < b.upper {
            min(basic_upper, b.upper)
        } else {
            basic_upper
        },
        lower: if prev_close > b.lower {
            max(basic_lower, b.lower)
        } else {
            basic_lower
        },
    }
}

/// The active signal line: the band that trails the price in the current
/// trend.
pub open spec fn band_signal_line(b: BandModel) -> int {
    if b.trend is Up {
        b.lower
    } else {
        b.upper
    }
}

/// The band state machine: current trend and the two trailing bands.
#[derive(Debug, Clone, Copy, PartialEq, Eq, Structural)]
pub struct SuperTrendState {
    pub trend: Trend,
    pub upper_band: i64,
    pub lower_band: i64,
}

impl View for SuperTrendState {
    type V = BandModel;

    open spec fn view(&self) -> BandModel {
        BandModel {
            trend: self.trend,
            upper: self.upper_band as int,
            lower: self.lower_band as int,
        }
    }
}

impl SuperTrendState {
    /// Start the machine on the first bar that has a center line and a
    /// positive smoothed range; the trend starts up.
    pub fn new(initial_upper: i64, initial_lower: i64) -> (r: SuperTrendState)
        ensures
            r@ == band_init(initial_upper as int, initial_lower as int),
    {
        SuperTrendState { trend: Trend::Up, upper_band: initial_upper, lower_band: initial_lower }
    }

    /// Advance the machine by one bar.
    pub fn update(&mut self, basic_upper: i64, basic_lower: i64, close: i64, prev_close: i64)
        ensures
            final(self)@ == band_step(
                old(self)@,
                basic_upper as int,
                basic_lower as int,
                close as int,
                prev_close as int,
            ),
    {
        let new_lower = if prev_close > self.lower_band {
            if basic_lower > self.lower_band {
                basic_lower
            } else {
                self.lower_band
            }
        } else {
            basic_lower
        };

        let new_upper = if prev_close < self.upper_band {
            if basic_upper < self.upper_band {
                basic_upper
            } else {
                self.upper_band
            }
        } else {
            basic_upper
        };

        let new_trend = if close > self.upper_band {
            Trend::Up
        } else if close < self.lower_band {
            Trend::Down
        } else {
            self.trend
        };

        self.trend = new_trend;
        self.upper_band = new_upper;
        self.lower_band = new_lower;
    }

    /// The current signal line.
    pub fn get_signal_line(&self) -> (r: i64)
        ensures
            r == band_signal_line(self@),
    {
        match self.trend {
            Trend::Up => self.lower_band,
            Trend::Down => self.upper_band,
        }
    }
}

/// Ratchet law: while the previous close stays above the old lower band the
/// lower band never falls, and while it stays below the old upper band the
/// upper band never rises.
pub proof fn lemma_band_ratchet(
    b: BandModel,
    basic_upper: int,
    basic_lower: int,
    close: int,
    prev_close: int,
)
    ensures
        prev_close > b.lower ==> band_step(b, basic_upper, basic_lower, close, prev_close).lower
            >= b.lower,
        prev_close < b.upper ==> band_step(b, basic_upper, basic_lower, close, prev_close).upper
            <= b.upper,
{
}

/// Trend transition law: the trend flips only when the close strictly
/// crosses an old band, and persists on every bar in between.
pub proof fn lemma_trend_flip(
    b: BandModel,
    basic_upper: int,
    basic_lower: int,
    close: int,
    prev_close: int,
)
    ensures
        band_step(b, basic_upper, basic_lower, close, prev_close).trend != b.trend ==> (close
            > b.upper || close < b.lower),
        b.lower <= close <= b.upper ==> band_step(
            b,
            basic_upper,
            basic_lower,
            close,
            prev_close,
        ).trend == b.trend,
        close > b.upper ==> band_step(b, basic_upper, basic_lower, close, prev_close).trend
            is Up,
        close <= b.upper && close < b.lower ==> band_step(
            b,
            basic_upper,
            basic_lower,
            close,
            prev_close,
        ).trend is Down,
{
}

/// Persistence of an uptrend: while the close holds at or above the old
/// lower band, an up trend stays up, so no bar of a continuing rise can
/// emit a further signal.
pub proof fn lemma_uptrend_persists(
    b: BandModel,
    basic_upper: int,
    basic_lower: int,
    close: int,
    prev_close: int,
)
    requires
        b.trend is Up,
        close >= b.lower,
    ensures
        band_step(b, basic_upper, basic_lower, close, prev_close).trend is Up,
{
}

} // verus!
