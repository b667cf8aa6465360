//! Fusing several takes of one key sequence into a single timeline.
//!
//! Takes are aligned by position: the events at slot `i` of every take that
//! has events are grouped by key and direction, each group is reduced to one
//! offset, and the resulting events are ordered by offset.

use vstd::prelude::*;
use crate::bucket::{mean_of, mean_value, median_of, median_value, Observation};
use crate::keys::KeyId;
use crate::recorder::{timelines, RecordedMode, Sample, TimedEvent};
use crate::sorting::{ascending, sorted_by_stamp};

verus! {

/// The least length among the first `n` takes that have events, or 0 where
/// none of them has any.
pub open spec fn alignment_upto(tl: Seq<Seq<TimedEvent>>, n: int) -> nat
    decreases n,
{
    if n <= 0 {
        0
    } else {
        let rest = alignment_upto(tl, n - 1);
        let len = tl[n - 1].len();
        if len == 0 {
            rest
        } else if rest == 0 || len < rest {
            len
        } else {
            rest
        }
    }
}

/// The number of slots that are aligned: the least length among the takes
/// that have events.
pub open spec fn alignment_len(tl: Seq<Seq<TimedEvent>>) -> nat {
    alignment_upto(tl, tl.len() as int)
}

/// Take `j` has events, and at `slot` it holds a transition of `key` in
/// direction `mode`.
pub open spec fn contributes(
    tl: Seq<Seq<TimedEvent>>,
    j: int,
    slot: int,
    key: KeyId,
    mode: RecordedMode,
) -> bool {
    tl[j].len() > 0 && tl[j][slot].key == key && tl[j][slot].mode == mode
}

/// The bucket of `(key, mode, slot)` as the first `n` takes fill it: one
/// observation from each take that contributes, weighted by the number of
/// events of that take.
pub open spec fn bucket_upto(
    tl: Seq<Seq<TimedEvent>>,
    slot: int,
    key: KeyId,
    mode: RecordedMode,
    n: int,
) -> Seq<Observation>
    decreases n,
{
    if n <= 0 {
        Seq::empty()
    } else {
        let rest = bucket_upto(tl, slot, key, mode, n - 1);
        if contributes(tl, n - 1, slot, key, mode) {
            rest.push(
                Observation { value: tl[n - 1][slot].delta_ms, weight: tl[n - 1].len() as u64 },
            )
        } else {
            rest
        }
    }
}

/// The bucket of `(key, mode, slot)`.
pub open spec fn bucket(tl: Seq<Seq<TimedEvent>>, slot: int, key: KeyId, mode: RecordedMode) -> Seq<
    Observation,
> {
    bucket_upto(tl, slot, key, mode, tl.len() as int)
}

/// The offset that stands for a bucket: its median, or its mean after
/// outlier rejection.
pub open spec fn aggregate_of(obs: Seq<Observation>, use_median: bool, k_milli: u32) -> u64 {
    if use_median {
        median_of(obs)
    } else {
        mean_of(obs, k_milli) as u64
    }
}

/// Take `j` is the first to contribute to the bucket of its event at `slot`.
pub open spec fn leads(tl: Seq<Seq<TimedEvent>>, j: int, slot: int) -> bool {
    &&& tl[j].len() > 0
    &&& forall|h: int| 0 <= h < j ==> !contributes(tl, h, slot, tl[j][slot].key, tl[j][slot].mode)
}

/// The fused event of the bucket that take `j` contributes to at `slot`.
pub open spec fn fused_event(
    tl: Seq<Seq<TimedEvent>>,
    j: int,
    slot: int,
    use_median: bool,
    k_milli: u32,
) -> TimedEvent {
    let key = tl[j][slot].key;
    let mode = tl[j][slot].mode;
    TimedEvent { key, mode, delta_ms: aggregate_of(bucket(tl, slot, key, mode), use_median, k_milli) }
}

/// One fused event for each bucket of `slot` that one of the first `n` takes
/// leads, in the order of the leading takes.
pub open spec fn slot_events(
    tl: Seq<Seq<TimedEvent>>,
    slot: int,
    n: int,
    use_median: bool,
    k_milli: u32,
) -> Seq<TimedEvent>
    decreases n,
{
    if n <= 0 {
        Seq::empty()
    } else {
        let rest = slot_events(tl, slot, n - 1, use_median, k_milli);
        if leads(tl, n - 1, slot) {
            rest.push(fused_event(tl, n - 1, slot, use_median, k_milli))
        } else {
            rest
        }
    }
}

/// The fused events of the first `slots` slots, slot by slot.
pub open spec fn fused_upto(tl: Seq<Seq<TimedEvent>>, slots: int, use_median: bool, k_milli: u32) -> Seq<
    TimedEvent,
>
    decreases slots,
{
    if slots <= 0 {
        Seq::empty()
    } else {
        fused_upto(tl, slots - 1, use_median, k_milli) + slot_events(
            tl,
            slots - 1,
            tl.len() as int,
            use_median,
            k_milli,
        )
    }
}

/// One fused event for every bucket of every aligned slot.
pub open spec fn fused(tl: Seq<Seq<TimedEvent>>, use_median: bool, k_milli: u32) -> Seq<TimedEvent> {
    fused_upto(tl, alignment_len(tl) as int, use_median, k_milli)
}

/// Every take that has events has at least `alignment_upto` of them.
pub proof fn lemma_alignment_bounds(tl: Seq<Seq<TimedEvent>>, n: int)
    requires
        0 <= n <= tl.len(),
    ensures
        forall|j: int|
            0 <= j < n && tl[j].len() > 0 ==> 1 <= alignment_upto(tl, n) <= (#[trigger] tl[j]).len(),
    decreases n,
{
    if n > 0 {
        lemma_alignment_bounds(tl, n - 1);
    }
}

/// The number of aligned slots.
pub fn alignment(samples: &Vec<Sample>) -> (l: usize)
    ensures
        l == alignment_len(timelines(samples@)),
{
    let ghost tl = timelines(samples@);
    let mut l: usize = 0;
    let mut j: usize = 0;
    while j < samples.len()
        invariant
            j <= samples.len(),
            tl == timelines(samples@),
            l == alignment_upto(tl, j as int),
        decreases samples.len() - j,
    {
        let len = samples[j].events.len();
        assert(tl[j as int] == samples@[j as int].events@);
        if len > 0 && (l == 0 || len < l) {
            l = len;
        }
        j += 1;
    }
    l
}

/// A bucket holds an observation of every take that contributes to it.
pub proof fn lemma_bucket_not_empty(
    tl: Seq<Seq<TimedEvent>>,
    slot: int,
    key: KeyId,
    mode: RecordedMode,
    j: int,
    n: int,
)
    requires
        0 <= j < n,
        contributes(tl, j, slot, key, mode),
    ensures
        bucket_upto(tl, slot, key, mode, n).len() > 0,
    decreases n,
{
    if j < n - 1 {
        lemma_bucket_not_empty(tl, slot, key, mode, j, n - 1);
    }
}

/// The bucket of `(key, mode, slot)`, for an aligned slot.
pub fn gather(samples: &Vec<Sample>, slot: usize, key: KeyId, mode: RecordedMode) -> (obs: Vec<
    Observation,
>)
    requires
        slot < alignment_len(timelines(samples@)),
    ensures
        obs@ == bucket(timelines(samples@), slot as int, key, mode),
{
    let ghost tl = timelines(samples@);
    proof {
        lemma_alignment_bounds(tl, tl.len() as int);
    }
    let mut obs: Vec<Observation> = Vec::new();
    let mut j: usize = 0;
    while j < samples.len()
        invariant
            j <= samples.len(),
            tl == timelines(samples@),
            slot < alignment_len(tl),
            forall|h: int|
                0 <= h < tl.len() && tl[h].len() > 0 ==> alignment_len(tl) <= (#[trigger] tl[h]).len(),
            obs@ == bucket_upto(tl, slot as int, key, mode, j as int),
        decreases samples.len() - j,
    {
        let sample = &samples[j];
        assert(tl[j as int] == sample.events@);
        if sample.events.len() > 0 {
            let e = sample.events[slot];
            if e.key == key && e.mode == mode {
                obs.push(Observation { value: e.delta_ms, weight: sample.events.len() as u64 });
            }
        }
        j += 1;
    }
    obs
}

/// Whether take `j`, which has events, is the first to contribute to the
/// bucket of its event at the aligned slot `slot`.
pub fn is_leader(samples: &Vec<Sample>, slot: usize, j: usize) -> (first: bool)
    requires
        slot < alignment_len(timelines(samples@)),
        j < samples@.len(),
        samples@[j as int].events@.len() > 0,
    ensures
        first == leads(timelines(samples@), j as int, slot as int),
{
    let ghost tl = timelines(samples@);
    proof {
        lemma_alignment_bounds(tl, tl.len() as int);
    }
    assert(tl[j as int] == samples@[j as int].events@);
    let own = samples[j].events[slot];
    let mut h: usize = 0;
    while h < j
        invariant
            h <= j,
            j < samples@.len(),
            tl == timelines(samples@),
            slot < alignment_len(tl),
            own == tl[j as int][slot as int],
            tl[j as int].len() > 0,
            forall|g: int|
                0 <= g < tl.len() && tl[g].len() > 0 ==> alignment_len(tl) <= (#[trigger] tl[g]).len(),
            forall|g: int| 0 <= g < h ==> !contributes(tl, g, slot as int, own.key, own.mode),
        decreases j - h,
    {
        let other = &samples[h];
        assert(tl[h as int] == other.events@);
        if other.events.len() > 0 {
            let e = other.events[slot];
            if e.key == own.key && e.mode == own.mode {
                assert(contributes(tl, h as int, slot as int, own.key, own.mode));
                return false;
            }
        }
        h += 1;
    }
    true
}

/// Fuses the takes into one timeline: one event for each bucket of each
/// aligned slot, carrying the bucket's key and direction and the offset that
/// stands for the bucket, in ascending order of offset. Events with equal
/// offsets come in no promised order.
pub fn fuse(samples: &Vec<Sample>, use_median: bool, k_milli: u32) -> (out: Vec<TimedEvent>)
    ensures
        ascending(out@),
        out@.to_multiset() == fused(timelines(samples@), use_median, k_milli).to_multiset(),
{
    let ghost tl = timelines(samples@);
    let slots = alignment(samples);
    proof {
        lemma_alignment_bounds(tl, tl.len() as int);
    }
    let mut acc: Vec<TimedEvent> = Vec::new();
    let mut slot: usize = 0;
    while slot < slots
        invariant
            slot <= slots,
            slots == alignment_len(tl),
            tl == timelines(samples@),
            forall|g: int|
                0 <= g < tl.len() && tl[g].len() > 0 ==> alignment_len(tl) <= (#[trigger] tl[g]).len(),
            acc@ == fused_upto(tl, slot as int, use_median, k_milli),
        decreases slots - slot,
    {
        let ghost base = acc@;
        let mut j: usize = 0;
        while j < samples.len()
            invariant
                j <= samples.len(),
                slot < slots,
                slots == alignment_len(tl),
                tl == timelines(samples@),
                    forall|g: int|
                    0 <= g < tl.len() && tl[g].len() > 0 ==> alignment_len(tl) <= (
                    #[trigger] tl[g]).len(),
                acc@ == base + slot_events(tl, slot as int, j as int, use_median, k_milli),
            decreases samples.len() - j,
        {
            let sample = &samples[j];
            assert(tl[j as int] == sample.events@);
            if sample.events.len() > 0 && is_leader(samples, slot, j) {
                let e = sample.events[slot];
                let obs = gather(samples, slot, e.key, e.mode);
                proof {
                    lemma_bucket_not_empty(
                        tl,
                        slot as int,
                        e.key,
                        e.mode,
                        j as int,
                        tl.len() as int,
                    );
                }
                let offset: u64 = if use_median {
                    median_value(&obs)
                } else {
                    mean_value(&obs, k_milli)
                };
                acc.push(TimedEvent { key: e.key, mode: e.mode, delta_ms: offset });
                assert(acc@ =~= base + slot_events(
                    tl,
                    slot as int,
                    j as int + 1,
                    use_median,
                    k_milli,
                ));
            }
            j += 1;
        }
        slot += 1;
    }
    sorted_by_stamp(&acc)
}

} // verus!
