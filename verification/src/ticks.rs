//! The numeric domain of the indicator: prices as signed fixed-point ticks,
//! with the bounds that keep every intermediate value inside `i64`, and the
//! floor division that the smoothing formulas use.

use vstd::arithmetic::div_mod::{lemma_fundamental_div_mod, lemma_mod_bound};
use vstd::prelude::*;

verus! {

/// Largest magnitude a price (high, low, close) may have, in ticks.
pub const PRICE_LIMIT: i64 = 1099511627776;

/// Largest smoothing or pivot window the indicator accepts.
pub const PERIOD_LIMIT: usize = 1048576;

/// Largest numerator the band factor ratio may have.
pub const FACTOR_LIMIT: i64 = 1048576;

/// A price is within the domain the indicator computes over.
pub open spec fn price_ok(p: int) -> bool {
    -(PRICE_LIMIT as int) <= p <= PRICE_LIMIT as int
}

/// A tick sequence read as a sequence of mathematical integers.
pub open spec fn seq_ticks(s: Seq<i64>) -> Seq<int> {
    Seq::new(s.len(), |i: int| s[i] as int)
}

/// An optional tick read as an optional mathematical integer.
pub open spec fn opt_ticks(o: Option<i64>) -> Option<int> {
    match o {
        Some(v) => Some(v as int),
        None => None,
    }
}

pub proof fn lemma_seq_ticks_push(s: Seq<i64>, x: i64)
    ensures
        seq_ticks(s.push(x)) == seq_ticks(s).push(x as int),
{
    assert(seq_ticks(s.push(x)) =~= seq_ticks(s).push(x as int));
}

pub proof fn lemma_seq_ticks_subrange(s: Seq<i64>, a: int, b: int)
    requires
        0 <= a <= b <= s.len(),
    ensures
        seq_ticks(s.subrange(a, b)) == seq_ticks(s).subrange(a, b),
{
    assert(seq_ticks(s.subrange(a, b)) =~= seq_ticks(s).subrange(a, b));
}

/// Floor (Euclidean) division bounds: dividing by a positive number never
/// moves a value away from zero.
pub proof fn lemma_div_pos_bounds(n: int, d: int)
    requires
        1 <= d,
    ensures
        n >= 0 ==> 0 <= n / d <= n,
        n < 0 ==> n <= n / d <= 0,
{
    lemma_fundamental_div_mod(n, d);
    lemma_mod_bound(n, d);
    let q = n / d;
    let r = n % d;
    assert(n == d * q + r);
    assert(0 <= r < d);
    if n >= 0 {
        assert(0 <= q <= n) by (nonlinear_arith)
            requires
                n == d * q + r,
                0 <= r < d,
                n >= 0,
                d >= 1,
        ;
    } else {
        assert(n <= q <= 0) by (nonlinear_arith)
            requires
                n == d * q + r,
                0 <= r < d,
                n < 0,
                d >= 1,
        ;
    }
}

/// Floor division of a tick value by a positive divisor, matching the
/// mathematical `/` used throughout the specifications.
pub fn div_floor(n: i64, d: i64) -> (q: i64)
    requires
        1 <= d,
    ensures
        q == n as int / d as int,
{
    proof {
        lemma_div_pos_bounds(n as int, d as int);
    }
    let r = n.checked_div_euclid(d);
    r.unwrap()
}

} // verus!
