//! What holds of every fusion.

use vstd::prelude::*;
use crate::aggregate::{
    alignment_len, alignment_upto, bucket, bucket_upto, contributes, fused, fused_event, fused_upto,
    leads, lemma_alignment_bounds, slot_events,
};
use crate::keys::KeyId;
use crate::recorder::{RecordedMode, TimedEvent};

verus! {

/// The number of aligned slots is the least length among the takes that
/// have events: no such take is shorter, and where there is such a take one
/// of them has exactly that length. Without such a take it is 0.
pub proof fn lemma_alignment_is_least(tl: Seq<Seq<TimedEvent>>)
    ensures
        forall|j: int|
            0 <= j < tl.len() && tl[j].len() > 0 ==> 1 <= alignment_len(tl) <= (#[trigger] tl[j]).len(),
        alignment_len(tl) > 0 ==> exists|j: int|
            0 <= j < tl.len() && (#[trigger] tl[j]).len() == alignment_len(tl),
        alignment_len(tl) == 0 <==> forall|j: int| 0 <= j < tl.len() ==> (#[trigger] tl[j]).len() == 0,
{
    lemma_alignment_bounds(tl, tl.len() as int);
    lemma_alignment_attained(tl, tl.len() as int);
    if alignment_len(tl) > 0 {
        let j = choose|j: int|
            0 <= j < tl.len() && (#[trigger] tl[j]).len() == alignment_upto(tl, tl.len() as int);
        assert(tl[j].len() > 0);
    }
}

/// Where the first `n` takes align any slot, one of them has exactly that
/// many events.
pub proof fn lemma_alignment_attained(tl: Seq<Seq<TimedEvent>>, n: int)
    requires
        0 <= n <= tl.len(),
    ensures
        alignment_upto(tl, n) > 0 ==> exists|j: int|
            0 <= j < n && (#[trigger] tl[j]).len() == alignment_upto(tl, n),
    decreases n,
{
    if n > 0 {
        lemma_alignment_attained(tl, n - 1);
        if alignment_upto(tl, n) > 0 {
            if alignment_upto(tl, n) == alignment_upto(tl, n - 1) && alignment_upto(tl, n - 1) > 0 {
                let j = choose|j: int|
                    0 <= j < n - 1 && (#[trigger] tl[j]).len() == alignment_upto(tl, n - 1);
                assert(tl[j].len() == alignment_upto(tl, n));
            } else {
                assert(tl[n - 1].len() == alignment_upto(tl, n));
            }
        }
    }
}

/// In median mode the outlier factor plays no part: the fusion is the same
/// under any two factors.
pub proof fn lemma_median_ignores_outlier_factor(tl: Seq<Seq<TimedEvent>>, k1: u32, k2: u32)
    ensures
        fused(tl, true, k1) == fused(tl, true, k2),
{
    lemma_median_upto(tl, alignment_len(tl) as int, k1, k2);
}

proof fn lemma_median_slot(tl: Seq<Seq<TimedEvent>>, slot: int, n: int, k1: u32, k2: u32)
    ensures
        slot_events(tl, slot, n, true, k1) == slot_events(tl, slot, n, true, k2),
    decreases n,
{
    if n > 0 {
        lemma_median_slot(tl, slot, n - 1, k1, k2);
    }
}

proof fn lemma_median_upto(tl: Seq<Seq<TimedEvent>>, slots: int, k1: u32, k2: u32)
    ensures
        fused_upto(tl, slots, true, k1) == fused_upto(tl, slots, true, k2),
    decreases slots,
{
    if slots > 0 {
        lemma_median_upto(tl, slots - 1, k1, k2);
        lemma_median_slot(tl, slots - 1, tl.len() as int, k1, k2);
    }
}

/// Two stores agree on their first `n` takes.
pub open spec fn same_prefix(a: Seq<Seq<TimedEvent>>, b: Seq<Seq<TimedEvent>>, n: int) -> bool {
    n <= a.len() && n <= b.len() && forall|j: int| 0 <= j < n ==> a[j] == b[j]
}

proof fn lemma_prefix_alignment(a: Seq<Seq<TimedEvent>>, b: Seq<Seq<TimedEvent>>, n: int, m: int)
    requires
        same_prefix(a, b, n),
        m <= n,
    ensures
        alignment_upto(a, m) == alignment_upto(b, m),
    decreases m,
{
    if m > 0 {
        lemma_prefix_alignment(a, b, n, m - 1);
    }
}

proof fn lemma_prefix_bucket(
    a: Seq<Seq<TimedEvent>>,
    b: Seq<Seq<TimedEvent>>,
    n: int,
    slot: int,
    key: KeyId,
    mode: RecordedMode,
    m: int,
)
    requires
        same_prefix(a, b, n),
        m <= n,
    ensures
        bucket_upto(a, slot, key, mode, m) == bucket_upto(b, slot, key, mode, m),
    decreases m,
{
    if m > 0 {
        lemma_prefix_bucket(a, b, n, slot, key, mode, m - 1);
    }
}

proof fn lemma_empty_take_slot(
    tl: Seq<Seq<TimedEvent>>,
    slot: int,
    m: int,
    use_median: bool,
    k_milli: u32,
)
    requires
        0 <= m <= tl.len(),
    ensures
        slot_events(tl.push(Seq::empty()), slot, m, use_median, k_milli) == slot_events(
            tl,
            slot,
            m,
            use_median,
            k_milli,
        ),
    decreases m,
{
    let wider = tl.push(Seq::empty());
    if m > 0 {
        lemma_empty_take_slot(tl, slot, m - 1, use_median, k_milli);
        let j = m - 1;
        assert(wider[j] == tl[j]);
        assert(leads(wider, j, slot) == leads(tl, j, slot)) by {
            assert forall|h: int| 0 <= h < j implies contributes(
                wider,
                h,
                slot,
                tl[j][slot].key,
                tl[j][slot].mode,
            ) == contributes(tl, h, slot, tl[j][slot].key, tl[j][slot].mode) by {
                assert(wider[h] == tl[h]);
            }
        }
        let key = tl[j][slot].key;
        let mode = tl[j][slot].mode;
        assert(same_prefix(wider, tl, tl.len() as int)) by {
            assert forall|h: int| 0 <= h < tl.len() implies wider[h] == tl[h] by {}
        }
        lemma_prefix_bucket(wider, tl, tl.len() as int, slot, key, mode, tl.len() as int);
        assert(bucket(wider, slot, key, mode) == bucket(tl, slot, key, mode));
        assert(fused_event(wider, j, slot, use_median, k_milli) == fused_event(
            tl,
            j,
            slot,
            use_median,
            k_milli,
        ));
    }
}

proof fn lemma_empty_take_upto(tl: Seq<Seq<TimedEvent>>, slots: int, use_median: bool, k_milli: u32)
    ensures
        fused_upto(tl.push(Seq::empty()), slots, use_median, k_milli) == fused_upto(
            tl,
            slots,
            use_median,
            k_milli,
        ),
    decreases slots,
{
    if slots > 0 {
        lemma_empty_take_upto(tl, slots - 1, use_median, k_milli);
        lemma_empty_take_slot(tl, slots - 1, tl.len() as int, use_median, k_milli);
    }
}

/// A take without events plays no part: the fusion of a store is the same
/// when such a take is added to it.
pub proof fn lemma_empty_take_is_left_out(tl: Seq<Seq<TimedEvent>>, use_median: bool, k_milli: u32)
    ensures
        alignment_len(tl.push(Seq::empty())) == alignment_len(tl),
        fused(tl.push(Seq::empty()), use_median, k_milli) == fused(tl, use_median, k_milli),
{
    let wider = tl.push(Seq::empty());
    assert(same_prefix(wider, tl, tl.len() as int)) by {
        assert forall|h: int| 0 <= h < tl.len() implies wider[h] == tl[h] by {}
    }
    lemma_prefix_alignment(wider, tl, tl.len() as int, tl.len() as int);
    lemma_empty_take_upto(tl, alignment_len(tl) as int, use_median, k_milli);
}

} // verus!
