//! Pivot detection and the pivot-driven center line.
//!
//! A pivot is a confirmed local extremum: the bar `right_bars` places before
//! the end of the series, accepted only if no bar in the `left_bars` before
//! it and no bar in the `right_bars` after it is strictly beyond it. Ties do
//! not invalidate a pivot. The center line follows confirmed pivots with a
//! fixed 2:1 smoothing toward the prior value, using floor division.

use crate::ticks::{
    div_floor, lemma_div_pos_bounds, opt_ticks, price_ok, seq_ticks, PRICE_LIMIT,
};
use vstd::arithmetic::div_mod::{lemma_div_is_ordered, lemma_div_multiples_vanish};
use vstd::prelude::*;

verus! {

/// The candidate position that a series of this shape confirms: the bar
/// `right` places before the end.
pub open spec fn pivot_index(s: Seq<int>, right: int) -> int {
    s.len() - right - 1
}

/// No bar in the window strictly exceeds the candidate.
pub open spec fn window_ok_high(s: Seq<int>, left: int, right: int) -> bool {
    let pi = pivot_index(s, right);
    forall|j: int| pi - left <= j <= pi + right && j != pi ==> s[j] <= s[pi]
}

/// No bar in the window is strictly below the candidate.
pub open spec fn window_ok_low(s: Seq<int>, left: int, right: int) -> bool {
    let pi = pivot_index(s, right);
    forall|j: int| pi - left <= j <= pi + right && j != pi ==> s[j] >= s[pi]
}

/// The confirmed pivot high of a series, if any: the candidate's value when
/// the series is long enough and no neighbor is strictly greater.
pub open spec fn spec_pivot_high(s: Seq<int>, left: int, right: int) -> Option<int> {
    if 0 <= left && 0 <= right && s.len() >= left + right + 1 && window_ok_high(s, left, right) {
        Some(s[pivot_index(s, right)])
    } else {
        None
    }
}

/// The confirmed pivot low of a series, if any.
pub open spec fn spec_pivot_low(s: Seq<int>, left: int, right: int) -> Option<int> {
    if 0 <= left && 0 <= right && s.len() >= left + right + 1 && window_ok_low(s, left, right) {
        Some(s[pivot_index(s, right)])
    } else {
        None
    }
}

/// Detect a pivot high at the lookback position of the series.
/// Returns the candidate's value on acceptance, `None` otherwise (including
/// whenever the series is shorter than `left_bars + right_bars + 1`).
pub fn pivot_high(highs: &[i64], left_bars: usize, right_bars: usize) -> (r: Option<i64>)
    ensures
        opt_ticks(r) == spec_pivot_high(seq_ticks(highs@), left_bars as int, right_bars as int),
{
    let n = highs.len();
    if n == 0 || left_bars > n - 1 || right_bars > n - 1 - left_bars {
        return None;
    }
    let pivot_idx = n - right_bars - 1;
    let pivot_value = highs[pivot_idx];
    let ghost s = seq_ticks(highs@);
    let mut i = pivot_idx - left_bars;
    while i < pivot_idx
        invariant
            pivot_idx - left_bars <= i <= pivot_idx,
            pivot_idx == n - right_bars - 1,
            left_bars <= pivot_idx,
            n == highs@.len(),
            n >= left_bars + right_bars + 1,
            s == seq_ticks(highs@),
            pivot_value == highs@[pivot_idx as int],
            forall|j: int| pivot_idx - left_bars <= j < i ==> s[j] <= s[pivot_idx as int],
        decreases pivot_idx - i,
    {
        if highs[i] > pivot_value {
            proof {
                assert(s[i as int] > s[pivot_idx as int]);
            }
            return None;
        }
        i = i + 1;
    }
    let mut j = pivot_idx + 1;
    while j <= pivot_idx + right_bars
        invariant
            pivot_idx + 1 <= j <= pivot_idx + right_bars + 1,
            pivot_idx == n - right_bars - 1,
            left_bars <= pivot_idx,
            n == highs@.len(),
            n >= left_bars + right_bars + 1,
            s == seq_ticks(highs@),
            pivot_value == highs@[pivot_idx as int],
            forall|k: int| pivot_idx - left_bars <= k < pivot_idx ==> s[k] <= s[pivot_idx as int],
            forall|k: int| pivot_idx < k < j ==> s[k] <= s[pivot_idx as int],
        decreases pivot_idx + right_bars + 1 - j,
    {
        if highs[j] > pivot_value {
            proof {
                assert(s[j as int] > s[pivot_idx as int]);
            }
            return None;
        }
        j = j + 1;
    }
    Some(pivot_value)
}

/// Detect a pivot low at the lookback position of the series.
/// Returns the candidate's value on acceptance, `None` otherwise (including
/// whenever the series is shorter than `left_bars + right_bars + 1`).
pub fn pivot_low(lows: &[i64], left_bars: usize, right_bars: usize) -> (r: Option<i64>)
    ensures
        opt_ticks(r) == spec_pivot_low(seq_ticks(lows@), left_bars as int, right_bars as int),
{
    let n = lows.len();
    if n == 0 || left_bars > n - 1 || right_bars > n - 1 - left_bars {
        return None;
    }
    let pivot_idx = n - right_bars - 1;
    let pivot_value = lows[pivot_idx];
    let ghost s = seq_ticks(lows@);
    let mut i = pivot_idx - left_bars;
    while i < pivot_idx
        invariant
            pivot_idx - left_bars <= i <= pivot_idx,
            pivot_idx == n - right_bars - 1,
            left_bars <= pivot_idx,
            n == lows@.len(),
            n >= left_bars + right_bars + 1,
            s == seq_ticks(lows@),
            pivot_value == lows@[pivot_idx as int],
            forall|j: int| pivot_idx - left_bars <= j < i ==> s[j] >= s[pivot_idx as int],
        decreases pivot_idx - i,
    {
        if lows[i] < pivot_value {
            proof {
                assert(s[i as int] < s[pivot_idx as int]);
            }
            return None;
        }
        i = i + 1;
    }
    let mut j = pivot_idx + 1;
    while j <= pivot_idx + right_bars
        invariant
            pivot_idx + 1 <= j <= pivot_idx + right_bars + 1,
            pivot_idx == n - right_bars - 1,
            left_bars <= pivot_idx,
            n == lows@.len(),
            n >= left_bars + right_bars + 1,
            s == seq_ticks(lows@),
            pivot_value == lows@[pivot_idx as int],
            forall|k: int| pivot_idx - left_bars <= k < pivot_idx ==> s[k] >= s[pivot_idx as int],
            forall|k: int| pivot_idx < k < j ==> s[k] >= s[pivot_idx as int],
        decreases pivot_idx + right_bars + 1 - j,
    {
        if lows[j] < pivot_value {
            proof {
                assert(s[j as int] < s[pivot_idx as int]);
            }
            return None;
        }
        j = j + 1;
    }
    Some(pivot_value)
}

/// Strictness law for pivot highs: only a strictly greater neighbor
/// invalidates the candidate; a neighbor equal to it does not.
pub proof fn lemma_pivot_high_strict(s: Seq<int>, left: int, right: int)
    requires
        left >= 0,
        right >= 0,
        s.len() >= left + right + 1,
    ensures
        spec_pivot_high(s, left, right) == (if exists|j: int|
            pivot_index(s, right) - left <= j <= pivot_index(s, right) + right
                && j != pivot_index(s, right) && #[trigger] s[j] > s[pivot_index(s, right)] {
            None::<int>
        } else {
            Some(s[pivot_index(s, right)])
        }),
{
}

/// Strictness law for pivot lows: only a strictly smaller neighbor
/// invalidates the candidate; a neighbor equal to it does not.
pub proof fn lemma_pivot_low_strict(s: Seq<int>, left: int, right: int)
    requires
        left >= 0,
        right >= 0,
        s.len() >= left + right + 1,
    ensures
        spec_pivot_low(s, left, right) == (if exists|j: int|
            pivot_index(s, right) - left <= j <= pivot_index(s, right) + right
                && j != pivot_index(s, right) && #[trigger] s[j] < s[pivot_index(s, right)] {
            None::<int>
        } else {
            Some(s[pivot_index(s, right)])
        }),
{
}

/// What one confirmed pivot does to the center line: the first pivot sets
/// it, every later one folds in with a fixed 2:1 weight on the prior value.
pub open spec fn center_next(center: Option<int>, pivot: int) -> int {
    match center {
        None => pivot,
        Some(prev) => (prev * 2 + pivot) / 3,
    }
}

/// A center-line value stays inside the price domain.
pub open spec fn center_wf(center: Option<int>) -> bool {
    center matches Some(c) ==> price_ok(c)
}

/// The 2:1 smoothing of two in-range prices is in range.
pub proof fn lemma_center_in_range(center: Option<int>, pivot: int)
    requires
        center_wf(center),
        price_ok(pivot),
    ensures
        price_ok(center_next(center, pivot)),
{
    match center {
        None => {},
        Some(prev) => {
            let p = PRICE_LIMIT as int;
            let num = prev * 2 + pivot;
            lemma_div_is_ordered(num, 3 * p, 3);
            lemma_div_multiples_vanish(p, 3);
            lemma_div_is_ordered(3 * (-p), num, 3);
            lemma_div_multiples_vanish(-p, 3);
        },
    }
}

/// Maintains a dynamic center line from detected pivot points.
pub struct PivotCenterLine {
    pub center: Option<i64>,
}

impl View for PivotCenterLine {
    type V = Option<int>;

    open spec fn view(&self) -> Option<int> {
        opt_ticks(self.center)
    }
}

impl PivotCenterLine {
    pub fn new() -> (r: PivotCenterLine)
        ensures
            r@ is None,
    {
        PivotCenterLine { center: None }
    }

    /// Fold one confirmed pivot price into the center line.
    pub fn update(&mut self, pivot_price: i64)
        requires
            center_wf(old(self)@),
            price_ok(pivot_price as int),
        ensures
            final(self)@ == Some(center_next(old(self)@, pivot_price as int)),
            center_wf(final(self)@),
    {
        proof {
            lemma_center_in_range(self@, pivot_price as int);
        }
        self.center = Some(
            match self.center {
                None => pivot_price,
                Some(prev) => div_floor(prev * 2 + pivot_price, 3),
            },
        );
    }

    /// The current center line, or `None` while no pivot has been confirmed.
    pub fn get(&self) -> (r: Option<i64>)
        ensures
            opt_ticks(r) == self@,
    {
        self.center
    }
}

} // verus!
