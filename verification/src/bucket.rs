//! One alignment bucket: the offsets that several takes recorded for the
//! same key transition in the same slot, and the single offset that stands
//! for them.

use vstd::prelude::*;
use vstd::relations::{sorted_by, total_ordering};
use vstd::seq_lib::lemma_sorted_unique;
use crate::bucket_sums::{lemma_spread_factors, square_sum};
use crate::natural::Natural;
use crate::sorting::{sorted_by_stamp, Stamped};

verus! {

/// One take's contribution to a bucket: the offset it recorded, and the
/// weight of the take (its number of events).
#[derive(Clone, Copy, Debug, PartialEq, Eq, Structural)]
pub struct Observation {
    pub value: u64,
    pub weight: u64,
}

/// The offsets of a bucket, in the order of its takes.
pub open spec fn values_of(obs: Seq<Observation>) -> Seq<u64> {
    obs.map_values(|o: Observation| o.value)
}

/// The order in which offsets are sorted.
pub open spec fn at_most() -> spec_fn(u64, u64) -> bool {
    |a: u64, b: u64| a <= b
}

/// The median of a bucket: the element at index `len / 2` of its offsets in
/// ascending order. No two elements are averaged.
pub open spec fn median_of(obs: Seq<Observation>) -> u64 {
    values_of(obs).sort_by(at_most())[obs.len() as int / 2]
}

/// `<=` on `u64` is a total order.
pub proof fn lemma_at_most_is_total()
    ensures
        total_ordering(at_most()),
{
    let r = at_most();
    assert(vstd::relations::reflexive(r));
    assert(vstd::relations::antisymmetric(r));
    assert(vstd::relations::transitive(r));
    assert(vstd::relations::strongly_connected(r));
}

/// The offsets of `obs`, in the order of its takes.
pub fn collect_values(obs: &Vec<Observation>) -> (values: Vec<u64>)
    ensures
        values@ == values_of(obs@),
{
    let mut values: Vec<u64> = Vec::new();
    let mut i: usize = 0;
    while i < obs.len()
        invariant
            i <= obs.len(),
            values@.len() == i,
            forall|j: int| 0 <= j < i ==> values@[j] == obs@[j].value,
        decreases obs.len() - i,
    {
        values.push(obs[i].value);
        i += 1;
    }
    assert(values@ =~= values_of(obs@));
    values
}

/// The median of a bucket that holds at least one observation.
pub fn median_value(obs: &Vec<Observation>) -> (m: u64)
    requires
        obs@.len() > 0,
    ensures
        m == median_of(obs@),
{
    let values = collect_values(obs);
    let sorted = sorted_by_stamp(&values);
    proof {
        lemma_at_most_is_total();
        values@.lemma_sort_by_ensures(at_most());
        assert(sorted_by(sorted@, at_most())) by {
            assert forall|i: int, j: int| 0 <= i < j < sorted@.len() implies #[trigger] at_most()(
                sorted@[i],
                sorted@[j],
            ) by {
                assert(sorted@[i].stamp() <= sorted@[j].stamp());
            }
        }
        lemma_sorted_unique(sorted@, values@.sort_by(at_most()), at_most());
    }
    sorted[sorted.len() / 2]
}

/// The sum of the weights of a bucket.
pub open spec fn total_weight(obs: Seq<Observation>) -> int
    decreases obs.len(),
{
    if obs.len() == 0 {
        0
    } else {
        total_weight(obs.drop_last()) + obs.last().weight
    }
}

/// The sum of the offsets of a bucket, each counted `weight` times.
pub open spec fn weighted_sum(obs: Seq<Observation>) -> int
    decreases obs.len(),
{
    if obs.len() == 0 {
        0
    } else {
        weighted_sum(obs.drop_last()) + obs.last().weight * obs.last().value
    }
}

/// The sum over a bucket of `weight * (value * a - b)^2`.
pub open spec fn spread_about(obs: Seq<Observation>, a: int, b: int) -> int
    decreases obs.len(),
{
    if obs.len() == 0 {
        0
    } else {
        spread_about(obs.drop_last(), a, b) + obs.last().weight * ((obs.last().value * a - b) * (
        obs.last().value * a - b))
    }
}

/// How far `v` lies from the weighted mean of the bucket, times the total
/// weight `W`: with `S` the weighted sum the mean is `S / W`, and this is
/// `v * W - S`.
pub open spec fn lean(obs: Seq<Observation>, v: int) -> int {
    v * total_weight(obs) - weighted_sum(obs)
}

/// The weighted variance of the bucket, times `W^3`: the sum of
/// `weight * lean(value)^2`.
pub open spec fn spread(obs: Seq<Observation>) -> int {
    spread_about(obs, total_weight(obs), weighted_sum(obs))
}

/// Whether `v` lies within `k_milli / 1000` weighted standard deviations of
/// the weighted mean of the bucket. With `d = lean(v) / W` the deviation and
/// `spread / W^3` the variance, `|d| <= (k_milli / 1000) * std` is, squared
/// and cleared of its denominators, the inequality stated here.
pub open spec fn within(obs: Seq<Observation>, k_milli: u32, v: u64) -> bool {
    1_000_000 * (total_weight(obs) * (lean(obs, v as int) * lean(obs, v as int))) <= (k_milli
        * k_milli) * spread(obs)
}

/// The test that an offset passes when it is no outlier of the bucket.
pub open spec fn passes(obs: Seq<Observation>, k_milli: u32) -> spec_fn(u64) -> bool {
    |v: u64| within(obs, k_milli, v)
}

/// The offsets of the bucket that are no outliers, in the order of its takes.
pub open spec fn survivors(obs: Seq<Observation>, k_milli: u32) -> Seq<u64> {
    values_of(obs).filter(passes(obs, k_milli))
}

/// The offsets that the mean is taken of: the survivors, or every offset of
/// the bucket where none survives.
pub open spec fn kept(obs: Seq<Observation>, k_milli: u32) -> Seq<u64> {
    if survivors(obs, k_milli).len() == 0 {
        values_of(obs)
    } else {
        survivors(obs, k_milli)
    }
}

/// The sum of a sequence of offsets.
pub open spec fn sum_of(values: Seq<u64>) -> int
    decreases values.len(),
{
    if values.len() == 0 {
        0
    } else {
        sum_of(values.drop_last()) + values.last()
    }
}

/// The mean of a bucket after outlier rejection: the arithmetic mean of the
/// kept offsets, each counted once, rounded down.
pub open spec fn mean_of(obs: Seq<Observation>, k_milli: u32) -> int {
    sum_of(kept(obs, k_milli)) / (kept(obs, k_milli).len() as int)
}

/// The total weight `W` of a bucket, its weighted sum `S`, and its sum of
/// squares `Q`.
fn sums_of(obs: &Vec<Observation>) -> (sums: (Natural, Natural, Natural))
    ensures
        sums.0@ == total_weight(obs@),
        sums.1@ == weighted_sum(obs@),
        sums.2@ == square_sum(obs@),
{
    let mut w = Natural::from_u128(0);
    let mut s = Natural::from_u128(0);
    let mut q = Natural::from_u128(0);
    let mut i: usize = 0;
    assert(obs@.take(0) =~= Seq::<Observation>::empty());
    while i < obs.len()
        invariant
            i <= obs.len(),
            w@ == total_weight(obs@.take(i as int)),
            s@ == weighted_sum(obs@.take(i as int)),
            q@ == square_sum(obs@.take(i as int)),
        decreases obs.len() - i,
    {
        let o = obs[i];
        proof {
            assert(obs@.take(i + 1).drop_last() =~= obs@.take(i as int));
            assert(obs@.take(i + 1).last() == o);
            assert(o.weight * o.value <= 0xffff_ffff_ffff_ffff * 0xffff_ffff_ffff_ffff
                && o.weight * (o.value * o.value) == (o.weight * o.value) * o.value)
                by (nonlinear_arith)
                requires
                    o.weight <= 0xffff_ffff_ffff_ffff,
                    o.value <= 0xffff_ffff_ffff_ffff,
            ;
        }
        let term = Natural::from_u128((o.weight as u128) * (o.value as u128));
        w = w.plus(&Natural::from_u128(o.weight as u128));
        s = s.plus(&term);
        q = q.plus(&term.times_small(o.value));
        i += 1;
    }
    assert(obs@.take(obs.len() as int) =~= obs@);
    (w, s, q)
}

/// What the test of an offset needs of its bucket, worked out once: with
/// `W`, `S`, `Q` the sums of the bucket and `k` the outlier factor in
/// thousandths, the numbers `W`, `W * W`, `S * S`, `W * S`, `k * k * S * S`
/// and `k * k * W * Q`.
struct Scale {
    w: Natural,
    ww: Natural,
    ss: Natural,
    ws: Natural,
    kkss: Natural,
    kkwq: Natural,
}

/// The scale of a bucket.
fn scale_of(obs: &Vec<Observation>, k_milli: u32) -> (scale: Scale)
    ensures
        scale.w@ == total_weight(obs@),
        scale.ww@ == total_weight(obs@) * total_weight(obs@),
        scale.ss@ == weighted_sum(obs@) * weighted_sum(obs@),
        scale.ws@ == total_weight(obs@) * weighted_sum(obs@),
        scale.kkss@ == (weighted_sum(obs@) * weighted_sum(obs@)) * (k_milli * k_milli),
        scale.kkwq@ == (total_weight(obs@) * square_sum(obs@)) * (k_milli * k_milli),
{
    let (w, s, q) = sums_of(obs);
    assert(k_milli * k_milli <= u64::MAX) by (nonlinear_arith)
        requires
            k_milli <= u32::MAX,
    ;
    let kk: u64 = (k_milli as u64) * (k_milli as u64);
    let ww = w.times(&w);
    let ss = s.times(&s);
    let ws = w.times(&s);
    let kkss = ss.times_small(kk);
    let kkwq = w.times(&q).times_small(kk);
    Scale { w, ww, ss, ws, kkss, kkwq }
}

/// Whether an offset `v` of the bucket `obs` is no outlier, from the scale
/// of the bucket. No difference is taken: the test `1000000 * (v * W - S)^2
/// <= k^2 * (W * Q - S^2)` is made with the negative terms on the other
/// side.
fn keeps(scale: &Scale, v: u64, Ghost(obs): Ghost<Seq<Observation>>, Ghost(k_milli): Ghost<u32>) -> (keep: bool)
    requires
        scale.w@ == total_weight(obs),
        scale.ww@ == total_weight(obs) * total_weight(obs),
        scale.ss@ == weighted_sum(obs) * weighted_sum(obs),
        scale.ws@ == total_weight(obs) * weighted_sum(obs),
        scale.kkss@ == (weighted_sum(obs) * weighted_sum(obs)) * (k_milli * k_milli),
        scale.kkwq@ == (total_weight(obs) * square_sum(obs)) * (k_milli * k_milli),
    ensures
        keep == within(obs, k_milli, v),
{
    let zero = Natural::from_u128(0);
    let weightless = scale.w.is_at_most(&zero);
    let left = scale.ww.times_small(v).times_small(v).plus(&scale.ss).times_small(1_000_000).plus(
        &scale.kkss,
    );
    let right = scale.kkwq.plus(&scale.ws.times_small(v).times_small(2).times_small(1_000_000));
    let keep = weightless || left.is_at_most(&right);
    proof {
        lemma_spread_factors(obs);
        let w = total_weight(obs);
        let s = weighted_sum(obs);
        let q = square_sum(obs);
        let kk = k_milli * k_milli;
        let l = lean(obs, v as int);
        let a = ((w * w) * v) * v;
        let b = s * s;
        let e = w * q;
        let g = (w * s) * v;
        assert(left@ == (a + b) * 1_000_000 + b * kk);
        assert(right@ == e * kk + (g * 2) * 1_000_000);
        if w > 0 {
            assert(l * l == a - 2 * g + b) by (nonlinear_arith)
                requires
                    l == v * w - s,
                    a == ((w * w) * v) * v,
                    b == s * s,
                    g == (w * s) * v,
            ;
            let x = 1_000_000 * (l * l);
            let y = kk * (e - b);
            assert(y == e * kk - b * kk) by (nonlinear_arith)
                requires
                    y == kk * (e - b),
            ;
            assert(1_000_000 * (w * (l * l)) == w * x) by (nonlinear_arith)
                requires
                    x == 1_000_000 * (l * l),
            ;
            assert(kk * (w * (e - b)) == w * y) by (nonlinear_arith)
                requires
                    y == kk * (e - b),
            ;
            assert((w * x <= w * y) == (x <= y)) by (nonlinear_arith)
                requires
                    w > 0,
            ;
        } else {
            assert(1_000_000 * (w * (l * l)) == 0) by (nonlinear_arith)
                requires
                    w == 0,
            ;
            assert(0 <= kk * spread(obs)) by (nonlinear_arith)
                requires
                    0 <= kk,
                    0 <= spread(obs),
            ;
        }
    }
    keep
}

/// The mean of a bucket after outlier rejection, for a bucket that holds at
/// least one observation.
pub fn mean_value(obs: &Vec<Observation>, k_milli: u32) -> (m: u64)
    requires
        obs@.len() > 0,
    ensures
        m == mean_of(obs@, k_milli),
{
    let scale = scale_of(obs, k_milli);
    let ghost values = values_of(obs@);
    let ghost pred = passes(obs@, k_milli);
    let mut kept_sum: u128 = 0;
    let mut kept_count: usize = 0;
    let mut all_sum: u128 = 0;
    let mut i: usize = 0;
    proof {
        reveal(Seq::filter);
        assert(values.take(0) =~= Seq::<u64>::empty());
    }
    while i < obs.len()
        invariant
            i <= obs.len(),
            obs@.len() > 0,
            values == values_of(obs@),
            pred == passes(obs@, k_milli),
            scale.w@ == total_weight(obs@),
            scale.ww@ == total_weight(obs@) * total_weight(obs@),
            scale.ss@ == weighted_sum(obs@) * weighted_sum(obs@),
            scale.ws@ == total_weight(obs@) * weighted_sum(obs@),
            scale.kkss@ == (weighted_sum(obs@) * weighted_sum(obs@)) * (k_milli * k_milli),
            scale.kkwq@ == (total_weight(obs@) * square_sum(obs@)) * (k_milli * k_milli),
            kept_sum == sum_of(values.take(i as int).filter(pred)),
            kept_count == values.take(i as int).filter(pred).len(),
            all_sum == sum_of(values.take(i as int)),
            kept_count <= i,
            kept_sum <= kept_count * u64::MAX,
            all_sum <= i * u64::MAX,
        decreases obs.len() - i,
    {
        let v: u64 = obs[i].value;
        let keep: bool = keeps(&scale, v, Ghost(obs@), Ghost(k_milli));
        proof {
            reveal(Seq::filter);
            let next = values.take(i + 1);
            assert(next.drop_last() =~= values.take(i as int));
            assert(next.last() == v);
            assert(keep == pred(v));
            let before = values.take(i as int).filter(pred);
            if keep {
                assert(next.filter(pred) == before.push(v));
                assert(before.push(v).drop_last() =~= before);
            } else {
                assert(next.filter(pred) == before);
            }
            assert(kept_count * u64::MAX + u64::MAX == (kept_count + 1) * u64::MAX
                && (kept_count + 1) * u64::MAX <= (i + 1) * u64::MAX && i * u64::MAX + u64::MAX == (
            i + 1) * u64::MAX && (i + 1) * u64::MAX <= u64::MAX * u64::MAX) by (nonlinear_arith)
                requires
                    kept_count <= i,
                    i < u64::MAX,
            ;
        }
        if keep {
            kept_sum = kept_sum + v as u128;
            kept_count = kept_count + 1;
        }
        all_sum = all_sum + v as u128;
        i += 1;
    }
    proof {
        assert(values.take(obs.len() as int) =~= values);
    }
    let (total, count): (u128, usize) = if kept_count == 0 {
        (all_sum, obs.len())
    } else {
        (kept_sum, kept_count)
    };
    assert(total / (count as u128) <= u64::MAX) by (nonlinear_arith)
        requires
            total <= count * u64::MAX,
            count > 0,
    ;
    (total / (count as u128)) as u64
}

} // verus!
