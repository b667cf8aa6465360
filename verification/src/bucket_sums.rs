//! Facts about the sums of a bucket that the mean is computed from.

use vstd::prelude::*;
use crate::bucket::{spread, spread_about, total_weight, weighted_sum, Observation};

verus! {

/// The sum of `weight * value^2` over a bucket.
pub open spec fn square_sum(obs: Seq<Observation>) -> int
    decreases obs.len(),
{
    if obs.len() == 0 {
        0
    } else {
        square_sum(obs.drop_last()) + obs.last().weight * (obs.last().value * obs.last().value)
    }
}

/// The spread about `b / a`, written out in the three sums of the bucket.
pub proof fn lemma_spread_expands(obs: Seq<Observation>, a: int, b: int)
    ensures
        spread_about(obs, a, b) == a * a * square_sum(obs) - 2 * a * b * weighted_sum(obs) + b * b
            * total_weight(obs),
        0 <= spread_about(obs, a, b),
    decreases obs.len(),
{
    if obs.len() > 0 {
        let rest = obs.drop_last();
        let w = obs.last().weight as int;
        let v = obs.last().value as int;
        lemma_spread_expands(rest, a, b);
        let q = square_sum(rest);
        let s = weighted_sum(rest);
        let t = total_weight(rest);
        let y = v * a - b;
        let vv = v * v;
        let p = a * a;
        let r = 2 * a * b;
        let t2 = b * b;
        assert(y * y == p * vv - r * v + t2) by (nonlinear_arith)
            requires
                y == v * a - b,
                vv == v * v,
                p == a * a,
                r == 2 * a * b,
                t2 == b * b,
        ;
        assert(0 <= y * y) by (nonlinear_arith);
        assert(0 <= w * (y * y)) by (nonlinear_arith)
            requires
                0 <= w,
                0 <= y * y,
        ;
        assert(w * (p * vv - r * v + t2) == p * (w * vv) - r * (w * v) + t2 * w)
            by (nonlinear_arith);
        let wvv = w * vv;
        let wv = w * v;
        assert(p * (q + wvv) == p * q + p * wvv) by (nonlinear_arith);
        assert(r * (s + wv) == r * s + r * wv) by (nonlinear_arith);
        assert(t2 * (t + w) == t2 * t + t2 * w) by (nonlinear_arith);
    } else {
        assert(a * a * 0 - 2 * a * b * 0 + b * b * 0 == 0) by (nonlinear_arith);
    }
}

/// The spread of a bucket is its total weight times `W * Q - S^2`, which is
/// therefore not negative where the bucket has weight.
pub proof fn lemma_spread_factors(obs: Seq<Observation>)
    ensures
        spread(obs) == total_weight(obs) * (total_weight(obs) * square_sum(obs) - weighted_sum(obs)
            * weighted_sum(obs)),
        0 <= spread(obs),
        total_weight(obs) > 0 ==> total_weight(obs) * square_sum(obs) - weighted_sum(obs)
            * weighted_sum(obs) >= 0,
{
    let w = total_weight(obs);
    let s = weighted_sum(obs);
    let q = square_sum(obs);
    lemma_spread_expands(obs, w, s);
    assert(w * w * q - 2 * w * s * s + s * s * w == w * (w * q - s * s)) by (nonlinear_arith);
    if w > 0 {
        assert(w * q - s * s >= 0) by (nonlinear_arith)
            requires
                w > 0,
                w * (w * q - s * s) >= 0,
        ;
    }
}

} // verus!
