//! The Pivot Point SuperTrend run: a two-pass batch computation over a
//! candle sequence.
//!
//! Pass one feeds every bar through the volatility smoother and records the
//! per-bar smoothed range. Pass two walks the bars again; once a bar is at
//! least `2 * pivot_point_period` deep it may confirm a pivot high or low
//! (each candidate position at most once), fold it into the center line,
//! and — whenever a center line and a positive smoothed range exist — drive
//! the band state machine, appending a signal on every trend flip.
//!
//! A completed run resets itself before recomputing, so the outcome of
//! `calculate` depends on the parameters and the candles alone.

use crate::indicators::atr::{
    atr_fresh, atr_step, atr_step_out, atr_wf, spec_true_range, AtrCalculator, AtrModel,
};
use crate::indicators::pivot::{
    center_next, center_wf, pivot_high, pivot_low, spec_pivot_high, spec_pivot_low,
    PivotCenterLine,
};
use crate::indicators::supertrend::{
    band_init, band_signal_line, band_step, BandModel, SuperTrendSignal, SuperTrendState, Trend,
};
use crate::ticks::{
    div_floor, lemma_div_pos_bounds, lemma_seq_ticks_push, lemma_seq_ticks_subrange, price_ok,
    seq_ticks, FACTOR_LIMIT, PERIOD_LIMIT, PRICE_LIMIT,
};
use vstd::prelude::*;
use vstd::slice::slice_subrange;

verus! {

/// Largest magnitude a trailing band can reach: the center line plus the
/// largest volatility offset.
pub const BAND_LIMIT: i64 = PRICE_LIMIT + 2 * PRICE_LIMIT * FACTOR_LIMIT;

/// One input bar, in ticks.
#[derive(Debug, Clone, Copy, PartialEq, Eq, Structural)]
pub struct Candle {
    pub high: i64,
    pub low: i64,
    pub close: i64,
    pub timestamp: i64,
}

/// The mathematical reading of one bar.
pub ghost struct CandleModel {
    pub high: int,
    pub low: int,
    pub close: int,
    pub timestamp: int,
}

impl View for Candle {
    type V = CandleModel;

    open spec fn view(&self) -> CandleModel {
        CandleModel {
            high: self.high as int,
            low: self.low as int,
            close: self.close as int,
            timestamp: self.timestamp as int,
        }
    }
}

/// A candle sequence read mathematically.
pub open spec fn seq_candles(s: Seq<Candle>) -> Seq<CandleModel> {
    Seq::new(s.len(), |i: int| s[i]@)
}

/// Every price of every candle is inside the tick domain.
pub open spec fn candles_ok(s: Seq<Candle>) -> bool {
    forall|i: int| 0 <= i < s.len() ==> price_ok((#[trigger] s[i])@.high) && price_ok(s[i]@.low)
        && price_ok(s[i]@.close)
}

/// The band factor, as an exact ratio of ticks per tick of smoothed range.
#[derive(Debug, Clone, Copy, PartialEq, Eq, Structural)]
pub struct Ratio {
    pub num: i64,
    pub den: i64,
}

/// Whether a run has been computed yet.
#[derive(Debug, Clone, Copy, PartialEq, Eq, Structural)]
pub enum ComputationState {
    Initialized,
    Completed,
}

/// One emitted trend-reversal signal.
#[derive(Debug, Clone, Copy, PartialEq, Eq, Structural)]
pub struct SignalData {
    pub index: usize,
    pub timestamp: i64,
    pub price: i64,
    pub signal_type: SuperTrendSignal,
    pub trend: Trend,
    pub signal_line: i64,
}

/// The mathematical reading of one signal.
pub ghost struct SignalModel {
    pub index: int,
    pub timestamp: int,
    pub price: int,
    pub signal_type: SuperTrendSignal,
    pub trend: Trend,
    pub signal_line: int,
}

impl View for SignalData {
    type V = SignalModel;

    open spec fn view(&self) -> SignalModel {
        SignalModel {
            index: self.index as int,
            timestamp: self.timestamp as int,
            price: self.price as int,
            signal_type: self.signal_type,
            trend: self.trend,
            signal_line: self.signal_line as int,
        }
    }
}

/// A signal list read mathematically.
pub open spec fn seq_signals(s: Seq<SignalData>) -> Seq<SignalModel> {
    Seq::new(s.len(), |i: int| s[i]@)
}

pub proof fn lemma_seq_signals_push(s: Seq<SignalData>, x: SignalData)
    ensures
        seq_signals(s.push(x)) == seq_signals(s).push(x@),
{
    assert(seq_signals(s.push(x)) =~= seq_signals(s).push(x@));
}

/// An optional index read mathematically.
pub open spec fn opt_idx(o: Option<usize>) -> Option<int> {
    match o {
        Some(v) => Some(v as int),
        None => None,
    }
}

/// The mathematical state of a whole run.
pub ghost struct RunModel {
    pub pivot_period: nat,
    pub factor_num: int,
    pub factor_den: int,
    pub atr_period: nat,
    pub completed: bool,
    pub atr: AtrModel,
    pub center: Option<int>,
    pub band: Option<BandModel>,
    pub signals: Seq<SignalModel>,
    pub last_high: Option<int>,
    pub last_low: Option<int>,
    pub highs: Seq<int>,
    pub lows: Seq<int>,
    pub closes: Seq<int>,
    pub atrs: Seq<int>,
}

/// The parameters the indicator accepts: windows and factor small enough
/// that no intermediate value can leave `i64`.
pub open spec fn params_ok(r: RunModel) -> bool {
    &&& r.pivot_period <= PERIOD_LIMIT as nat
    &&& r.atr_period <= PERIOD_LIMIT as nat
    &&& 0 <= r.factor_num <= FACTOR_LIMIT as int
    &&& 1 <= r.factor_den
}

/// A run that has not consumed any bar yet.
pub open spec fn run_fresh(
    pivot_period: nat,
    factor_num: int,
    factor_den: int,
    atr_period: nat,
) -> RunModel {
    RunModel {
        pivot_period,
        factor_num,
        factor_den,
        atr_period,
        completed: false,
        atr: atr_fresh(atr_period),
        center: None,
        band: None,
        signals: Seq::empty(),
        last_high: None,
        last_low: None,
        highs: Seq::empty(),
        lows: Seq::empty(),
        closes: Seq::empty(),
        atrs: Seq::empty(),
    }
}

/// Pass one, one bar: record the prices and the smoothed range. The first
/// bar uses its own close as the previous close.
pub open spec fn pass1_step(r: RunModel, c: CandleModel) -> RunModel {
    let prev_close = if r.closes.len() > 0 {
        r.closes.last()
    } else {
        c.close
    };
    let tr = spec_true_range(c.high, c.low, prev_close);
    RunModel {
        atr: atr_step(r.atr, tr),
        highs: r.highs.push(c.high),
        lows: r.lows.push(c.low),
        closes: r.closes.push(c.close),
        atrs: r.atrs.push(atr_step_out(r.atr, tr)),
        ..r
    }
}

/// Pass one over the first `k` bars.
pub open spec fn pass1_upto(r0: RunModel, cs: Seq<CandleModel>, k: int) -> RunModel
    decreases k,
{
    if k <= 0 {
        r0
    } else {
        pass1_step(pass1_upto(r0, cs, k - 1), cs[k - 1])
    }
}

/// Pass one leaves everything but the arrays and the smoother untouched.
pub proof fn lemma_pass1_keeps_rest(r0: RunModel, cs: Seq<CandleModel>, k: int)
    ensures
        pass1_upto(r0, cs, k).pivot_period == r0.pivot_period,
        pass1_upto(r0, cs, k).factor_num == r0.factor_num,
        pass1_upto(r0, cs, k).factor_den == r0.factor_den,
        pass1_upto(r0, cs, k).atr_period == r0.atr_period,
        pass1_upto(r0, cs, k).completed == r0.completed,
        pass1_upto(r0, cs, k).center == r0.center,
        pass1_upto(r0, cs, k).band == r0.band,
        pass1_upto(r0, cs, k).signals == r0.signals,
        pass1_upto(r0, cs, k).last_high == r0.last_high,
        pass1_upto(r0, cs, k).last_low == r0.last_low,
    decreases k,
{
    if k > 0 {
        lemma_pass1_keeps_rest(r0, cs, k - 1);
    }
}

/// Pass two, pivot part of bar `i`: each of the two candidate kinds is
/// attempted only if its candidate position is new, and on confirmation
/// folds into the center line and records the position.
pub open spec fn pivot_phase(r: RunModel, i: int) -> RunModel {
    let prd = r.pivot_period as int;
    let pidx = i - prd;
    let r1 = if r.last_high is None || pidx > r.last_high->0 {
        match spec_pivot_high(r.highs.subrange(0, i + 1), prd, prd) {
            Some(ph) => RunModel {
                center: Some(center_next(r.center, ph)),
                last_high: Some(pidx),
                ..r
            },
            None => r,
        }
    } else {
        r
    };
    if r1.last_low is None || pidx > r1.last_low->0 {
        match spec_pivot_low(r1.lows.subrange(0, i + 1), prd, prd) {
            Some(pl) => RunModel {
                center: Some(center_next(r1.center, pl)),
                last_low: Some(pidx),
                ..r1
            },
            None => r1,
        }
    } else {
        r1
    }
}

/// Pass two, band part of bar `i`: with a center line and a positive
/// smoothed range, compute the basic bands; initialize the machine on its
/// first bar, otherwise step it and append a signal if the trend flipped.
pub open spec fn band_phase(r: RunModel, ts: int, i: int) -> RunModel {
    match r.center {
        None => r,
        Some(center) => {
            let atr_i = r.atrs[i];
            if atr_i > 0 {
                let offset = atr_i * r.factor_num / r.factor_den;
                let basic_upper = center + offset;
                let basic_lower = center - offset;
                match r.band {
                    None => RunModel { band: Some(band_init(basic_upper, basic_lower)), ..r },
                    Some(b) => {
                        let prev_close = if i > 0 {
                            r.closes[i - 1]
                        } else {
                            r.closes[i]
                        };
                        let nb = band_step(b, basic_upper, basic_lower, r.closes[i], prev_close);
                        let sigs = if nb.trend != b.trend {
                            r.signals.push(
                                SignalModel {
                                    index: i,
                                    timestamp: ts,
                                    price: r.closes[i],
                                    signal_type: if nb.trend is Up {
                                        SuperTrendSignal::Long
                                    } else {
                                        SuperTrendSignal::Short
                                    },
                                    trend: nb.trend,
                                    signal_line: band_signal_line(nb),
                                },
                            )
                        } else {
                            r.signals
                        };
                        RunModel { band: Some(nb), signals: sigs, ..r }
                    },
                }
            } else {
                r
            }
        },
    }
}

/// Pass two, one bar: nothing happens before bar `2 * pivot_period`.
pub open spec fn pass2_step(r: RunModel, c: CandleModel, i: int) -> RunModel {
    if i >= 2 * r.pivot_period {
        band_phase(pivot_phase(r, i), c.timestamp, i)
    } else {
        r
    }
}

/// Pass two over the first `k` bars.
pub open spec fn pass2_upto(r0: RunModel, cs: Seq<CandleModel>, k: int) -> RunModel
    decreases k,
{
    if k <= 0 {
        r0
    } else {
        pass2_step(pass2_upto(r0, cs, k - 1), cs[k - 1], k - 1)
    }
}

/// The whole computation: both passes over the full sequence, then the run
/// is marked completed. This is a function of the parameters and the
/// candles alone.
pub open spec fn run_spec(
    pivot_period: nat,
    factor_num: int,
    factor_den: int,
    atr_period: nat,
    cs: Seq<CandleModel>,
) -> RunModel {
    let r1 = pass1_upto(run_fresh(pivot_period, factor_num, factor_den, atr_period), cs, cs.len() as int);
    let r2 = pass2_upto(r1, cs, cs.len() as int);
    RunModel { completed: true, ..r2 }
}

/// Recomputation law: the outcome of a run is a function of the parameters
/// and the candle sequence alone, so recomputing over an identical sequence
/// yields an identical signal list and final trend.
pub proof fn lemma_recompute_identical(
    pivot_period: nat,
    factor_num: int,
    factor_den: int,
    atr_period: nat,
    cs: Seq<CandleModel>,
    r1: RunModel,
    r2: RunModel,
)
    requires
        r1 == run_spec(pivot_period, factor_num, factor_den, atr_period, cs),
        r2 == run_spec(pivot_period, factor_num, factor_den, atr_period, cs),
    ensures
        r1.signals == r2.signals,
        r1.band == r2.band,
        r1 == r2,
{
}

/// A Pivot Point SuperTrend run over one candle history.
pub struct PPST {
    // Parameters
    pub pivot_point_period: usize,
    pub atr_factor: Ratio,
    pub atr_period: usize,
    // State
    pub computation_state: ComputationState,
    pub atr_calculator: AtrCalculator,
    pub center_line: PivotCenterLine,
    pub supertrend_state: Option<SuperTrendState>,
    pub signals: Vec<SignalData>,
    pub last_pivot_high_idx: Option<usize>,
    pub last_pivot_low_idx: Option<usize>,
    pub highs: Vec<i64>,
    pub lows: Vec<i64>,
    pub closes: Vec<i64>,
    pub atrs: Vec<i64>,
}

impl View for PPST {
    type V = RunModel;

    open spec fn view(&self) -> RunModel {
        RunModel {
            pivot_period: self.pivot_point_period as nat,
            factor_num: self.atr_factor.num as int,
            factor_den: self.atr_factor.den as int,
            atr_period: self.atr_period as nat,
            completed: self.computation_state is Completed,
            atr: self.atr_calculator@,
            center: self.center_line@,
            band: match self.supertrend_state {
                Some(s) => Some(s@),
                None => None,
            },
            signals: seq_signals(self.signals@),
            last_high: opt_idx(self.last_pivot_high_idx),
            last_low: opt_idx(self.last_pivot_low_idx),
            highs: seq_ticks(self.highs@),
            lows: seq_ticks(self.lows@),
            closes: seq_ticks(self.closes@),
            atrs: seq_ticks(self.atrs@),
        }
    }
}

impl PPST {
    /// A fresh run with the given parameters. `candles_count` only sizes
    /// the internal buffers.
    pub fn new(
        pivot_point_period: usize,
        atr_factor: Ratio,
        atr_period: usize,
        candles_count: usize,
    ) -> (r: PPST)
        ensures
            r@ == run_fresh(
                pivot_point_period as nat,
                atr_factor.num as int,
                atr_factor.den as int,
                atr_period as nat,
            ),
            r.pivot_point_period == pivot_point_period,
            r.atr_factor == atr_factor,
            r.atr_period == atr_period,
    {
        let r = PPST {
            pivot_point_period,
            atr_factor,
            atr_period,
            computation_state: ComputationState::Initialized,
            atr_calculator: AtrCalculator::new(atr_period),
            center_line: PivotCenterLine::new(),
            supertrend_state: None,
            signals: Vec::with_capacity(candles_count / 20),
            last_pivot_high_idx: None,
            last_pivot_low_idx: None,
            highs: Vec::with_capacity(candles_count),
            lows: Vec::with_capacity(candles_count),
            closes: Vec::with_capacity(candles_count),
            atrs: Vec::with_capacity(candles_count),
        };
        proof {
            lemma_fresh_view(&r);
        }
        r
    }

    /// Clear all computation state, keeping the parameters.
    pub fn reset(&mut self)
        ensures
            final(self)@ == run_fresh(
                old(self)@.pivot_period,
                old(self)@.factor_num,
                old(self)@.factor_den,
                old(self)@.atr_period,
            ),
            final(self).pivot_point_period == old(self).pivot_point_period,
            final(self).atr_factor == old(self).atr_factor,
            final(self).atr_period == old(self).atr_period,
    {
        self.computation_state = ComputationState::Initialized;
        self.atr_calculator = AtrCalculator::new(self.atr_period);
        self.center_line = PivotCenterLine::new();
        self.supertrend_state = None;
        self.signals.clear();
        self.last_pivot_high_idx = None;
        self.last_pivot_low_idx = None;
        self.highs.clear();
        self.lows.clear();
        self.closes.clear();
        self.atrs.clear();
        proof {
            lemma_fresh_view(self);
        }
    }
}

/// A trailing band stays inside the reachable band domain.
pub open spec fn band_ok(b: Option<BandModel>) -> bool {
    b matches Some(bb) ==> -(BAND_LIMIT as int) <= bb.upper <= BAND_LIMIT as int
        && -(BAND_LIMIT as int) <= bb.lower <= BAND_LIMIT as int
}

impl PPST {
    /// Run the whole computation over `candles`. A completed run resets
    /// itself first, so the final state is exactly the mathematical run
    /// over the parameters and the candles, whatever was computed before.
    ///
    /// A `pivot_point_period` of zero is degenerate: every bar is
    /// immediately eligible for pivot confirmation, with itself as the
    /// whole window.
    #[verifier::rlimit(100)]
    pub fn calculate(&mut self, candles: &Vec<Candle>)
        requires
            params_ok(old(self)@),
            candles_ok(candles@),
            old(self).computation_state is Initialized ==> old(self)@ == run_fresh(
                old(self)@.pivot_period,
                old(self)@.factor_num,
                old(self)@.factor_den,
                old(self)@.atr_period,
            ),
        ensures
            final(self)@ == run_spec(
                old(self)@.pivot_period,
                old(self)@.factor_num,
                old(self)@.factor_den,
                old(self)@.atr_period,
                seq_candles(candles@),
            ),
    {
        match self.computation_state {
            ComputationState::Completed => {
                self.reset();
            },
            ComputationState::Initialized => {},
        }
        let ghost prd: nat = self@.pivot_period;
        let ghost fnum: int = self@.factor_num;
        let ghost fden: int = self@.factor_den;
        let ghost ap: nat = self@.atr_period;
        let ghost r0: RunModel = self@;
        let ghost cs: Seq<CandleModel> = seq_candles(candles@);

        let n = candles.len();
        proof {
            assert(seq_ticks(self.highs@).len() == self.highs@.len());
            assert(seq_ticks(self.lows@).len() == self.lows@.len());
            assert(seq_ticks(self.closes@).len() == self.closes@.len());
            assert(seq_ticks(self.atrs@).len() == self.atrs@.len());
        }

        // First pass: smooth the true range of every bar.
        let mut idx: usize = 0;
        while idx < n
            invariant
                idx <= n,
                n == candles@.len(),
                cs == seq_candles(candles@),
                candles_ok(candles@),
                params_ok(self@),
                r0 == run_fresh(prd, fnum, fden, ap),
                self@ == pass1_upto(r0, cs, idx as int),
                self@.pivot_period == prd,
                self@.factor_num == fnum,
                self@.factor_den == fden,
                self@.atr_period == ap,
                atr_wf(self@.atr),
                self.highs@.len() == idx,
                self.lows@.len() == idx,
                self.closes@.len() == idx,
                self.atrs@.len() == idx,
                forall|j: int| 0 <= j < idx ==> #[trigger] self.highs@[j] == candles@[j].high,
                forall|j: int| 0 <= j < idx ==> #[trigger] self.lows@[j] == candles@[j].low,
                forall|j: int| 0 <= j < idx ==> #[trigger] self.closes@[j] == candles@[j].close,
                forall|j: int| 0 <= j < idx ==> 0 <= #[trigger] self.atrs@[j] <= 2 * PRICE_LIMIT as int,
            decreases n - idx,
        {
            let ghost rpre = self@;
            let ghost h0 = self.highs@;
            let ghost l0 = self.lows@;
            let ghost c0 = self.closes@;
            let ghost a0 = self.atrs@;
            let candle = candles[idx];
            let prev_close = if idx > 0 {
                candles[idx - 1].close
            } else {
                candle.close
            };
            self.highs.push(candle.high);
            self.lows.push(candle.low);
            self.closes.push(candle.close);
            let atr_value = self.atr_calculator.next(candle.high, candle.low, prev_close);
            self.atrs.push(atr_value);
            proof {
                lemma_seq_ticks_push(h0, candle.high);
                lemma_seq_ticks_push(l0, candle.low);
                lemma_seq_ticks_push(c0, candle.close);
                lemma_seq_ticks_push(a0, atr_value);
                assert(cs[idx as int] == candle@);
                assert(self@ == pass1_step(rpre, cs[idx as int]));
            }
            idx = idx + 1;
        }

        // Second pass: confirm pivots, track the center line, drive the
        // band machine, and record every trend flip.
        let ghost r1 = self@;
        proof {
            lemma_pass1_keeps_rest(r0, cs, n as int);
        }
        let mut i: usize = 0;
        while i < n
            invariant
                i <= n,
                n == candles@.len(),
                cs == seq_candles(candles@),
                candles_ok(candles@),
                params_ok(self@),
                r1 == pass1_upto(r0, cs, n as int),
                self@ == pass2_upto(r1, cs, i as int),
                self@.pivot_period == prd,
                self@.factor_num == fnum,
                self@.factor_den == fden,
                self@.atr_period == ap,
                self.highs@.len() == n,
                self.lows@.len() == n,
                self.closes@.len() == n,
                self.atrs@.len() == n,
                forall|j: int| 0 <= j < n ==> #[trigger] self.highs@[j] == candles@[j].high,
                forall|j: int| 0 <= j < n ==> #[trigger] self.lows@[j] == candles@[j].low,
                forall|j: int| 0 <= j < n ==> #[trigger] self.closes@[j] == candles@[j].close,
                forall|j: int| 0 <= j < n ==> 0 <= #[trigger] self.atrs@[j] <= 2 * PRICE_LIMIT as int,
                center_wf(self@.center),
                band_ok(self@.band),
            decreases n - i,
        {
            let ghost rpre = self@;
            if i >= 2 * self.pivot_point_period {
                let pivot_idx = i - self.pivot_point_period;
                let window = self.pivot_point_period;

                // Pivot high: attempt only a new candidate position.
                let attempt_high = match self.last_pivot_high_idx {
                    None => true,
                    Some(prev_idx) => pivot_idx > prev_idx,
                };
                if attempt_high {
                    let hs = slice_subrange(self.highs.as_slice(), 0, i + 1);
                    let ph = pivot_high(hs, window, window);
                    proof {
                        lemma_seq_ticks_subrange(self.highs@, 0, i as int + 1);
                    }
                    match ph {
                        Some(phv) => {
                            proof {
                                assert(phv as int == rpre.highs.subrange(0, i as int + 1).index(i as int - prd));
                                assert(phv as int == candles@[i as int - prd].high as int);
                                assert(price_ok(candles@[i as int - prd]@.high));
                            }
                            self.center_line.update(phv);
                            self.last_pivot_high_idx = Some(pivot_idx);
                        },
                        None => {},
                    }
                }

                // Pivot low, independently.
                let attempt_low = match self.last_pivot_low_idx {
                    None => true,
                    Some(prev_idx) => pivot_idx > prev_idx,
                };
                if attempt_low {
                    let ls = slice_subrange(self.lows.as_slice(), 0, i + 1);
                    let pl = pivot_low(ls, window, window);
                    proof {
                        lemma_seq_ticks_subrange(self.lows@, 0, i as int + 1);
                    }
                    match pl {
                        Some(plv) => {
                            proof {
                                assert(plv as int == rpre.lows.subrange(0, i as int + 1).index(i as int - prd));
                                assert(plv as int == candles@[i as int - prd].low as int);
                                assert(price_ok(candles@[i as int - prd]@.low));
                            }
                            self.center_line.update(plv);
                            self.last_pivot_low_idx = Some(pivot_idx);
                        },
                        None => {},
                    }
                }
                proof {
                    assert(self@ == pivot_phase(rpre, i as int));
                }
                let ghost rpiv = self@;

                // Band phase: needs a center line and a positive smoothed
                // range.
                match self.center_line.get() {
                    Some(center) => {
                        let atr = self.atrs[i];
                        if atr > 0 {
                            proof {
                                assert(0 <= atr as int * fnum <= 2 * PRICE_LIMIT as int
                                    * FACTOR_LIMIT as int) by (nonlinear_arith)
                                    requires
                                        0 <= atr as int <= 2 * PRICE_LIMIT as int,
                                        0 <= fnum <= FACTOR_LIMIT as int,
                                ;
                                lemma_div_pos_bounds(atr as int * fnum, fden);
                            }
                            let offset = div_floor(atr * self.atr_factor.num, self.atr_factor.den);
                            let basic_upper = center + offset;
                            let basic_lower = center - offset;
                            match self.supertrend_state {
                                None => {
                                    self.supertrend_state = Some(
                                        SuperTrendState::new(basic_upper, basic_lower),
                                    );
                                },
                                Some(st0) => {
                                    let mut st = st0;
                                    let old_trend = st.trend;
                                    let close_i = self.closes[i];
                                    let prev_close = if i > 0 {
                                        self.closes[i - 1]
                                    } else {
                                        self.closes[i]
                                    };
                                    st.update(basic_upper, basic_lower, close_i, prev_close);
                                    if old_trend != st.trend {
                                        let ghost sigs0 = self.signals@;
                                        let signal_type = match st.trend {
                                            Trend::Up => SuperTrendSignal::Long,
                                            Trend::Down => SuperTrendSignal::Short,
                                        };
                                        let sd = SignalData {
                                            index: i,
                                            timestamp: candles[i].timestamp,
                                            price: close_i,
                                            signal_type,
                                            trend: st.trend,
                                            signal_line: st.get_signal_line(),
                                        };
                                        self.signals.push(sd);
                                        proof {
                                            lemma_seq_signals_push(sigs0, sd);
                                        }
                                    }
                                    self.supertrend_state = Some(st);
                                },
                            }
                        }
                    },
                    None => {},
                }
                proof {
                    assert(self@ == band_phase(rpiv, cs[i as int].timestamp, i as int));
                }
            }
            proof {
                assert(self@ == pass2_step(rpre, cs[i as int], i as int));
            }
            i = i + 1;
        }

        self.computation_state = ComputationState::Completed;
        proof {
            assert(self@ == run_spec(prd, fnum, fden, ap, cs));
        }
    }
}

/// A run whose buffers are empty and whose trackers are unset views as the
/// fresh run of its parameters.
proof fn lemma_fresh_view(r: &PPST)
    requires
        r.computation_state is Initialized,
        r.atr_calculator@ == atr_fresh(r.atr_period as nat),
        r.center_line@ is None,
        r.supertrend_state is None,
        r.signals@.len() == 0,
        r.last_pivot_high_idx is None,
        r.last_pivot_low_idx is None,
        r.highs@.len() == 0,
        r.lows@.len() == 0,
        r.closes@.len() == 0,
        r.atrs@.len() == 0,
    ensures
        r@ == run_fresh(
            r.pivot_point_period as nat,
            r.atr_factor.num as int,
            r.atr_factor.den as int,
            r.atr_period as nat,
        ),
{
    assert(seq_signals(r.signals@) =~= Seq::<SignalModel>::empty());
    assert(seq_ticks(r.highs@) =~= Seq::<int>::empty());
    assert(seq_ticks(r.lows@) =~= Seq::<int>::empty());
    assert(seq_ticks(r.closes@) =~= Seq::<int>::empty());
    assert(seq_ticks(r.atrs@) =~= Seq::<int>::empty());
}

} // verus!
