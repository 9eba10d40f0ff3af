//! Volatility smoothing: per-bar true range and its Wilder-smoothed average.
//!
//! The smoother seeds itself on the first `period` bars (returning each bar's
//! raw true range while seeding, then the arithmetic mean of the first
//! `period` true ranges), and from then on follows Wilder's recurrence
//! `atr' = (atr * (period - 1) + tr) / period` with floor division.
//! A `period` of zero is degenerate: the smoother never seeds and every call
//! returns the raw true range unchanged.

use crate::ticks::{div_floor, lemma_div_pos_bounds, price_ok, PERIOD_LIMIT, PRICE_LIMIT};
use vstd::arithmetic::div_mod::{lemma_div_is_ordered, lemma_div_multiples_vanish};
use vstd::math::{abs, max3};
use vstd::prelude::*;

verus! {

/// The mathematical true range of one bar: the largest of the bar's span and
/// its two gaps against the previous close.
pub open spec fn spec_true_range(high: int, low: int, prev_close: int) -> int {
    max3(high - low, abs(high - prev_close) as int, abs(low - prev_close) as int)
}

/// Calculate the true range for a single bar.
pub fn true_range(high: i64, low: i64, prev_close: i64) -> (r: i64)
    requires
        price_ok(high as int),
        price_ok(low as int),
        price_ok(prev_close as int),
    ensures
        r == spec_true_range(high as int, low as int, prev_close as int),
        0 <= r <= 2 * PRICE_LIMIT as int,
{
    let tr1 = high - low;
    let tr2 = if high >= prev_close {
        high - prev_close
    } else {
        prev_close - high
    };
    let tr3 = if low >= prev_close {
        low - prev_close
    } else {
        prev_close - low
    };
    let m = if tr1 >= tr2 {
        tr1
    } else {
        tr2
    };
    if m >= tr3 {
        m
    } else {
        tr3
    }
}

/// The mathematical state of the smoother: the window size, the smoothed
/// value once seeded, and the seeding accumulator with its count.
pub ghost struct AtrModel {
    pub period: nat,
    pub atr: Option<int>,
    pub tr_sum: int,
    pub count: nat,
}

/// A freshly constructed smoother: unseeded, with an empty accumulator.
pub open spec fn atr_fresh(period: nat) -> AtrModel {
    AtrModel { period, atr: None, tr_sum: 0, count: 0 }
}

/// How one true-range observation advances the smoother state.
pub open spec fn atr_step(a: AtrModel, tr: int) -> AtrModel {
    if a.period == 0 {
        a
    } else {
        match a.atr {
            None => {
                let sum = a.tr_sum + tr;
                let cnt = (a.count + 1) as nat;
                AtrModel {
                    period: a.period,
                    atr: if cnt >= a.period {
                        Some(sum / a.period as int)
                    } else {
                        None
                    },
                    tr_sum: sum,
                    count: cnt,
                }
            },
            Some(prev) => AtrModel {
                atr: Some((prev * (a.period - 1) + tr) / a.period as int),
                ..a
            },
        }
    }
}

/// The value one true-range observation makes the smoother return: the raw
/// true range while seeding, the smoothed average from the seeding bar on.
pub open spec fn atr_step_out(a: AtrModel, tr: int) -> int {
    if a.period == 0 {
        tr
    } else {
        match a.atr {
            None => {
                if a.count + 1 >= a.period {
                    (a.tr_sum + tr) / a.period as int
                } else {
                    tr
                }
            },
            Some(prev) => (prev * (a.period - 1) + tr) / a.period as int,
        }
    }
}

/// Well-formedness of a smoother state: the window is within the accepted
/// limit, the accumulator holds at most one bounded true range per counted
/// bar, the smoothed value is a bounded true-range average, and an unseeded
/// smoother with a real window has seen fewer than `period` bars.
pub open spec fn atr_wf(a: AtrModel) -> bool {
    &&& a.period <= PERIOD_LIMIT
    &&& a.count <= a.period
    &&& 0 <= a.tr_sum <= a.count * (2 * PRICE_LIMIT as int)
    &&& (a.atr matches Some(v) ==> 0 <= v <= 2 * PRICE_LIMIT as int)
    &&& (a.atr is None && a.period > 0 ==> a.count < a.period)
}

/// ATR calculator using Wilder's smoothing.
pub struct AtrCalculator {
    pub period: usize,
    pub atr: Option<i64>,
    pub tr_sum: i64,
    pub count: usize,
}

impl View for AtrCalculator {
    type V = AtrModel;

    open spec fn view(&self) -> AtrModel {
        AtrModel {
            period: self.period as nat,
            atr: match self.atr {
                Some(v) => Some(v as int),
                None => None,
            },
            tr_sum: self.tr_sum as int,
            count: self.count as nat,
        }
    }
}

impl AtrCalculator {
    pub fn new(period: usize) -> (r: AtrCalculator)
        ensures
            r@ == atr_fresh(period as nat),
            period <= PERIOD_LIMIT ==> atr_wf(r@),
    {
        AtrCalculator { period, atr: None, tr_sum: 0, count: 0 }
    }

    /// Feed one bar; returns the smoothed value (or the raw true range while
    /// the smoother is still seeding).
    pub fn next(&mut self, high: i64, low: i64, prev_close: i64) -> (r: i64)
        requires
            atr_wf(old(self)@),
            price_ok(high as int),
            price_ok(low as int),
            price_ok(prev_close as int),
        ensures
            final(self)@ == atr_step(
                old(self)@,
                spec_true_range(high as int, low as int, prev_close as int),
            ),
            r == atr_step_out(
                old(self)@,
                spec_true_range(high as int, low as int, prev_close as int),
            ),
            atr_wf(final(self)@),
            0 <= r <= 2 * PRICE_LIMIT as int,
    {
        let tr = true_range(high, low, prev_close);
        if self.period == 0 {
            return tr;
        }
        match self.atr {
            None => {
                let ghost s0: int = self.tr_sum as int;
                let ghost c0: int = self.count as int;
                proof {
                    let b = 2 * PRICE_LIMIT as int;
                    assert(s0 <= PERIOD_LIMIT as int * b) by (nonlinear_arith)
                        requires
                            s0 <= c0 * b,
                            0 <= c0 <= PERIOD_LIMIT as int,
                            b >= 0,
                    ;
                }
                self.tr_sum = self.tr_sum + tr;
                self.count = self.count + 1;
                proof {
                    let b = 2 * PRICE_LIMIT as int;
                    assert(self.tr_sum as int <= self.count as int * b
                        && self.tr_sum as int <= self.period as int * b) by (nonlinear_arith)
                        requires
                            self.tr_sum as int == s0 + tr as int,
                            s0 <= c0 * b,
                            tr as int <= b,
                            self.count as int == c0 + 1,
                            self.count as int <= self.period as int,
                            b >= 0,
                    ;
                }
                if self.count >= self.period {
                    proof {
                        lemma_average_in_range(self.tr_sum as int, self.period as int);
                    }
                    self.atr = Some(div_floor(self.tr_sum, self.period as i64));
                }
                match self.atr {
                    Some(a) => a,
                    None => tr,
                }
            },
            Some(prev_atr) => {
                proof {
                    let b = 2 * PRICE_LIMIT as int;
                    assert(0 <= prev_atr as int * (self.period as int - 1)
                        <= b * PERIOD_LIMIT as int) by (nonlinear_arith)
                        requires
                            0 <= prev_atr as int <= b,
                            1 <= self.period as int <= PERIOD_LIMIT as int,
                            b >= 0,
                    ;
                    lemma_wilder_in_range(prev_atr as int, tr as int, self.period as int);
                }
                let new_atr = div_floor(
                    prev_atr * (self.period as i64 - 1) + tr,
                    self.period as i64,
                );
                self.atr = Some(new_atr);
                new_atr
            },
        }
    }
}

/// The mean of at most `period` bounded true ranges is itself bounded.
proof fn lemma_average_in_range(sum: int, period: int)
    requires
        1 <= period,
        0 <= sum <= period * (2 * PRICE_LIMIT as int),
    ensures
        0 <= sum / period <= 2 * PRICE_LIMIT as int,
{
    let b = 2 * PRICE_LIMIT as int;
    lemma_div_pos_bounds(sum, period);
    lemma_div_is_ordered(sum, period * b, period);
    lemma_div_multiples_vanish(b, period);
    assert(period * b == b * period) by (nonlinear_arith);
}

/// One Wilder step keeps a bounded average bounded.
proof fn lemma_wilder_in_range(prev: int, tr: int, period: int)
    requires
        1 <= period,
        0 <= prev <= 2 * PRICE_LIMIT as int,
        0 <= tr <= 2 * PRICE_LIMIT as int,
    ensures
        0 <= (prev * (period - 1) + tr) / period <= 2 * PRICE_LIMIT as int,
{
    let b = 2 * PRICE_LIMIT as int;
    let num = prev * (period - 1) + tr;
    assert(0 <= num <= period * b) by (nonlinear_arith)
        requires
            0 <= prev <= b,
            0 <= tr <= b,
            period >= 1,
            num == prev * (period - 1) + tr,
    ;
    lemma_div_pos_bounds(num, period);
    lemma_div_is_ordered(num, period * b, period);
    lemma_div_multiples_vanish(b, period);
    assert(period * b == b * period) by (nonlinear_arith);
}

/// Warm-up law for a window of three: while the smoother is seeding it
/// returns each bar's raw true range, and on the seeding bar it returns the
/// exact mean of the first three true ranges.
pub proof fn lemma_atr_warmup(t1: int, t2: int, t3: int)
    ensures
        atr_step_out(atr_fresh(3), t1) == t1,
        atr_step_out(atr_step(atr_fresh(3), t1), t2) == t2,
        atr_step_out(atr_step(atr_step(atr_fresh(3), t1), t2), t3) == (t1 + t2 + t3) / 3,
{
}

/// Steady-state law: once seeded, every step returns and stores exactly
/// Wilder's recurrence applied to the previous value.
pub proof fn lemma_atr_steady(a: AtrModel, tr: int)
    requires
        a.atr is Some,
        a.period >= 1,
    ensures
        atr_step_out(a, tr) == (a.atr->0 * (a.period - 1) + tr) / a.period as int,
        atr_step(a, tr).atr == Some(atr_step_out(a, tr)),
{
}

} // verus!
