//! From a stored timeline to the plan of its playback: the instant at which
//! each event is due under the global and the per-key offsets.

use vstd::prelude::*;
use crate::keys::KeyId;
use crate::keytable::KeyTable;
use crate::macro_play::Planned;
use crate::recorder::TimedEvent;

verus! {

/// The instant, in milliseconds, at which an event recorded at `delta_ms`
/// is due under a global offset and the offset of its key: their sum, and 0
/// where the sum is negative.
pub open spec fn effective_target_ms(delta_ms: u64, global_offset_ms: i64, key_offset_ms: int) -> int {
    if delta_ms + global_offset_ms + key_offset_ms < 0 {
        0
    } else {
        delta_ms + global_offset_ms + key_offset_ms
    }
}

/// The offset of `key` under `offsets`: its entry, or 0 where it has none.
pub open spec fn key_offset(offsets: Map<KeyId, i32>, key: KeyId) -> int {
    if offsets.contains_key(key) {
        offsets[key] as int
    } else {
        0
    }
}

/// The planned form of a stored event.
pub open spec fn planned_event(event: TimedEvent, global_offset_ms: i64, offsets: Map<KeyId, i32>) -> Planned {
    Planned {
        key: event.key,
        mode: event.mode,
        target: (effective_target_ms(
            event.delta_ms,
            global_offset_ms,
            key_offset(offsets, event.key),
        ) * 1_000_000) as u128,
    }
}

/// The plan of a stored timeline: its events in their own order.
pub open spec fn plan_of(events: Seq<TimedEvent>, global_offset_ms: i64, offsets: Map<KeyId, i32>) -> Seq<
    Planned,
> {
    events.map_values(|e: TimedEvent| planned_event(e, global_offset_ms, offsets))
}

/// The instant, in milliseconds, at which an event recorded at `delta_ms`
/// is due.
pub fn effective_target(delta_ms: u64, global_offset_ms: i64, key_offset_ms: i32) -> (target_ms: u128)
    ensures
        target_ms == effective_target_ms(delta_ms, global_offset_ms, key_offset_ms as int),
{
    let sum: i128 = delta_ms as i128 + global_offset_ms as i128 + key_offset_ms as i128;
    if sum < 0 {
        0
    } else {
        sum as u128
    }
}

/// No offset, however negative, moves an event before the start of the
/// playback: the effective target is never below 0, and it is 0 exactly
/// where the offsets outweigh the recorded instant.
pub proof fn lemma_target_never_negative(delta_ms: u64, global_offset_ms: i64, key_offset_ms: i32)
    ensures
        effective_target_ms(delta_ms, global_offset_ms, key_offset_ms as int) >= 0,
        delta_ms + global_offset_ms + key_offset_ms <= 0 <==> effective_target_ms(
            delta_ms,
            global_offset_ms,
            key_offset_ms as int,
        ) == 0,
{
}

/// The plan of `events` under a global offset and per-key offsets. The
/// order of the events is kept as it is, whatever their instants.
pub fn plan_events(events: &Vec<TimedEvent>, global_offset_ms: i64, offsets: &KeyTable<i32>) -> (plan: Vec<
    Planned,
>)
    ensures
        plan@ == plan_of(events@, global_offset_ms, offsets@),
{
    let mut plan: Vec<Planned> = Vec::new();
    let mut i: usize = 0;
    while i < events.len()
        invariant
            i <= events.len(),
            plan@.len() == i,
            forall|j: int|
                0 <= j < i ==> plan@[j] == planned_event(events@[j], global_offset_ms, offsets@),
        decreases events.len() - i,
    {
        let e = events[i];
        let adjust: i32 = match offsets.get(e.key) {
            Some(offset) => offset,
            None => 0,
        };
        let target_ms = effective_target(e.delta_ms, global_offset_ms, adjust);
        plan.push(Planned { key: e.key, mode: e.mode, target: target_ms * 1_000_000 });
        i += 1;
    }
    assert(plan@ =~= plan_of(events@, global_offset_ms, offsets@));
    plan
}

} // verus!
