//! What a recorder is, as contracts speak of it, and how each command and
//! each key update changes it.

use vstd::prelude::*;
use crate::keys::{mapped_key, KeyId, RawKey};
use crate::names::decimal;
use crate::recorder::{RecordedMode, SampleView, TimedEvent};

verus! {

/// One update from the keyboard listener: a physical key, the direction of
/// its transition, and the instant of capture in nanoseconds on the
/// listener's clock.
#[derive(Clone, Copy, Debug, PartialEq, Eq, Structural)]
pub struct KeyUpdate {
    pub mode: RecordedMode,
    pub key: RawKey,
    pub at: u64,
}

/// The state of a recorder.
pub struct RecorderView {
    pub live: Seq<TimedEvent>,
    pub store: Seq<SampleView>,
    pub recording: bool,
    pub allowed: Seq<KeyId>,
    pub pressed: Set<KeyId>,
    pub start: Option<u64>,
    pub counter: u64,
    pub offsets: Map<KeyId, i32>,
    pub hotkey_toggle: RawKey,
    pub hotkey_playback: RawKey,
    pub outlier_k_milli: u32,
    pub use_median: bool,
    pub playback_offset_ms: i64,
    pub autosave: bool,
}

/// Whole milliseconds from the instant `start` to the instant `at`, both in
/// nanoseconds; 0 where `at` is not after `start`.
pub open spec fn millis_between(start: u64, at: u64) -> u64 {
    if at <= start {
        0
    } else {
        ((at - start) / 1_000_000) as u64
    }
}

/// The name of the sample with the id `id`.
pub open spec fn sample_name(id: u64) -> Seq<char> {
    "sample-"@ + decimal(id as nat)
}

/// The greatest id among `store`, 0 for an empty store.
pub open spec fn greatest_id(store: Seq<SampleView>) -> u64
    decreases store.len(),
{
    if store.len() == 0 {
        0
    } else {
        let rest = greatest_id(store.drop_last());
        if store.last().id > rest {
            store.last().id
        } else {
            rest
        }
    }
}

impl RecorderView {
    /// A session is open and an edge on `key` would be taken into it.
    pub open spec fn takes(self, key: KeyId) -> bool {
        self.recording && (self.allowed.len() == 0 || self.allowed.contains(key))
    }

    /// After `start`: a session is open from the instant `now`, with an
    /// empty buffer.
    pub open spec fn after_start(self, now: u64) -> RecorderView {
        RecorderView { recording: true, start: Some(now), live: Seq::empty(), ..self }
    }

    /// After an edge on `key` at the instant `at`. Outside a session, and
    /// for a key that the allow-list leaves out, nothing changes. Else the
    /// edge joins the buffer at its offset from the start of the session,
    /// and the key joins or leaves the set of held keys.
    pub open spec fn after_edge(self, key: KeyId, mode: RecordedMode, at: u64) -> RecorderView {
        if !self.takes(key) {
            self
        } else {
            RecorderView {
                live: match self.start {
                    Some(start) => self.live.push(
                        TimedEvent { key, mode, delta_ms: millis_between(start, at) },
                    ),
                    None => self.live,
                },
                pressed: match mode {
                    RecordedMode::Press => self.pressed.insert(key),
                    RecordedMode::Release => self.pressed.remove(key),
                },
                ..self
            }
        }
    }

    /// `stop` would store a sample: a session is open and its buffer holds
    /// an event.
    pub open spec fn stores_on_finish(self) -> bool {
        self.recording && self.live.len() > 0
    }

    /// After `stop`: no session is open and the buffer is empty. Where the
    /// buffer held events of an open session they are now the last sample
    /// of the store, under the next id.
    pub open spec fn after_finish(self) -> RecorderView {
        if self.stores_on_finish() {
            let id = (self.counter + 1) as u64;
            RecorderView {
                store: self.store.push(
                    SampleView { id, name: sample_name(id), events: self.live },
                ),
                counter: id,
                recording: false,
                start: None,
                live: Seq::empty(),
                ..self
            }
        } else {
            RecorderView { recording: false, start: None, live: Seq::empty(), ..self }
        }
    }

    /// The update presses the hotkey that opens and closes sessions.
    pub open spec fn is_toggle(self, update: KeyUpdate) -> bool {
        update.key == self.hotkey_toggle && update.mode == RecordedMode::Press
    }

    /// The update presses the hotkey that replays the fused timeline, and
    /// not the one that opens and closes sessions.
    pub open spec fn is_replay(self, update: KeyUpdate) -> bool {
        !self.is_toggle(update) && update.key == self.hotkey_playback && update.mode
            == RecordedMode::Press
    }

    /// After one update from the listener, taken at the instant `now`.
    pub open spec fn after_update(self, update: KeyUpdate, now: u64) -> RecorderView {
        if self.is_toggle(update) {
            if self.recording {
                self.after_finish()
            } else {
                self.after_start(now)
            }
        } else if self.is_replay(update) {
            self
        } else {
            match mapped_key(update.key) {
                Some(key) => self.after_edge(key, update.mode, update.at),
                None => self,
            }
        }
    }

    /// After the edges `edges`, one after the other.
    pub open spec fn after_edges(self, edges: Seq<(KeyId, RecordedMode, u64)>) -> RecorderView
        decreases edges.len(),
    {
        if edges.len() == 0 {
            self
        } else {
            self.after_edges(edges.drop_last()).after_edge(
                edges.last().0,
                edges.last().1,
                edges.last().2,
            )
        }
    }

    /// No sample of the store has an id above the counter.
    pub open spec fn ids_below_counter(self) -> bool {
        forall|j: int| 0 <= j < self.store.len() ==> (#[trigger] self.store[j]).id <= self.counter
    }

    /// The ids of the store increase along it.
    pub open spec fn ids_increase(self) -> bool {
        forall|i: int, j: int|
            0 <= i < j < self.store.len() ==> (#[trigger] self.store[i]).id < (
            #[trigger] self.store[j]).id
    }
}

/// Offsets never decrease along `events`.
pub open spec fn offsets_ascend(events: Seq<TimedEvent>) -> bool {
    forall|i: int, j: int| 0 <= i <= j < events.len() ==> events[i].delta_ms <= events[j].delta_ms
}

/// The instants of `edges` never decrease.
pub open spec fn instants_ascend(edges: Seq<(KeyId, RecordedMode, u64)>) -> bool {
    forall|i: int, j: int| 0 <= i <= j < edges.len() ==> edges[i].2 <= edges[j].2
}

/// Within a session the offsets of the buffer never decrease, as long as
/// the instants that the listener reports never do: if the buffer is in
/// order, none of its offsets lies beyond the first new edge, and the new
/// edges come in the order of their instants, the buffer is in order after
/// them.
pub proof fn lemma_session_offsets_ascend(v: RecorderView, edges: Seq<(KeyId, RecordedMode, u64)>)
    requires
        offsets_ascend(v.live),
        instants_ascend(edges),
        edges.len() > 0 ==> (v.start matches Some(start) ==> forall|i: int|
            0 <= i < v.live.len() ==> (#[trigger] v.live[i]).delta_ms <= millis_between(
                start,
                edges[0].2,
            )),
    ensures
        offsets_ascend(v.after_edges(edges).live),
        v.after_edges(edges).start == v.start,
        v.after_edges(edges).recording == v.recording,
        edges.len() > 0 ==> (v.start matches Some(start) ==> forall|i: int|
            0 <= i < v.after_edges(edges).live.len() ==> (#[trigger] v.after_edges(
                edges,
            ).live[i]).delta_ms <= millis_between(start, edges.last().2)),
    decreases edges.len(),
{
    if edges.len() > 0 {
        let rest = edges.drop_last();
        let last = edges.last();
        let mid = v.after_edges(rest);
        assert(instants_ascend(rest)) by {
            assert forall|i: int, j: int| 0 <= i <= j < rest.len() implies rest[i].2
                <= rest[j].2 by {
                assert(rest[i] == edges[i] && rest[j] == edges[j]);
            }
        }
        if rest.len() > 0 {
            assert(rest[0] == edges[0]);
        }
        lemma_session_offsets_ascend(v, rest);
        if let Some(start) = v.start {
            let bound = millis_between(start, last.2);
            assert forall|i: int| 0 <= i < mid.live.len() implies (#[trigger] mid.live[i]).delta_ms
                <= bound by {
                if rest.len() > 0 {
                    assert(rest.last() == edges[rest.len() - 1]);
                    assert(rest.last().2 <= last.2);
                    lemma_millis_monotone(start, rest.last().2, last.2);
                } else {
                    assert(edges[0] == last);
                }
            }
        }
    }
}

/// From the start of a session on, the offsets of the buffer never
/// decrease, as long as the instants that the listener reports never do.
pub proof fn lemma_fresh_session_offsets_ascend(
    v: RecorderView,
    now: u64,
    edges: Seq<(KeyId, RecordedMode, u64)>,
)
    requires
        instants_ascend(edges),
    ensures
        offsets_ascend(v.after_start(now).after_edges(edges).live),
{
    lemma_session_offsets_ascend(v.after_start(now), edges);
}

/// A later instant is no fewer milliseconds from the start.
pub proof fn lemma_millis_monotone(start: u64, a: u64, b: u64)
    requires
        a <= b,
    ensures
        millis_between(start, a) <= millis_between(start, b),
{
}

/// The sample that `stop` stores has an id above every id of the store,
/// where no id of the store lies above the counter; and none lies above the
/// counter afterwards. Ids that increase along the store go on doing so.
pub proof fn lemma_new_id_is_fresh(v: RecorderView)
    requires
        v.ids_below_counter(),
        v.stores_on_finish(),
        v.counter < u64::MAX,
    ensures
        v.after_finish().ids_below_counter(),
        v.after_finish().store.len() == v.store.len() + 1,
        forall|j: int| 0 <= j < v.store.len() ==> (#[trigger] v.store[j]).id
            < v.after_finish().store.last().id,
        v.ids_increase() ==> v.after_finish().ids_increase(),
{
    let w = v.after_finish();
    assert forall|j: int| 0 <= j < w.store.len() implies (#[trigger] w.store[j]).id
        <= w.counter by {
        if j < v.store.len() {
            assert(w.store[j] == v.store[j]);
        }
    }
    if v.ids_increase() {
        assert forall|i: int, j: int| 0 <= i < j < w.store.len() implies (#[trigger] w.store[i]).id
            < (#[trigger] w.store[j]).id by {
            assert(w.store[i] == v.store[i]);
            if j < v.store.len() {
                assert(w.store[j] == v.store[j]);
            }
        }
    }
}

/// No sample of a store has an id above the greatest id of the store: a
/// counter that restarts there keeps the ids of new samples apart from the
/// ids of the store.
pub proof fn lemma_greatest_id_bounds(store: Seq<SampleView>)
    ensures
        forall|j: int| 0 <= j < store.len() ==> (#[trigger] store[j]).id <= greatest_id(store),
    decreases store.len(),
{
    if store.len() > 0 {
        lemma_greatest_id_bounds(store.drop_last());
        assert forall|j: int| 0 <= j < store.len() implies (#[trigger] store[j]).id <= greatest_id(
            store,
        ) by {
            if j < store.len() - 1 {
                assert(store.drop_last()[j] == store[j]);
            }
        }
    }
}

} // verus!
