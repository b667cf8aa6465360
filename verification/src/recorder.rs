//! Recording sessions, the sample store and its persisted form.

use vstd::prelude::*;
use crate::aggregate::{fuse, fused};
use crate::keys::{contains_key, map_key, KeyId, RawKey};
use crate::keytable::KeyTable;
use crate::macro_play::Planned;
use crate::names::numbered;
use crate::persist::{decode_store, from_serializable, serial_views, SerializableSample};
use crate::plan::{plan_events, plan_of};
use crate::session::{greatest_id, KeyUpdate, RecorderView};
use crate::sorting::ascending;
use crate::tags::is_recognized;
use crate::keytable::distinct_keys;

verus! {

/// The direction of a key transition as it is recorded.
#[derive(Clone, Copy, Debug, PartialEq, Eq, Hash, Structural)]
pub enum RecordedMode {
    Press,
    Release,
}

/// The direction of a key transition as it is persisted.
#[derive(Clone, Copy, Debug, PartialEq, Eq, Hash, Structural)]
pub enum SerialMode {
    Press,
    Release,
}

/// One key transition, `delta_ms` milliseconds after its session began.
#[derive(Clone, Copy, Debug, PartialEq, Eq, Structural)]
pub struct TimedEvent {
    pub key: KeyId,
    pub mode: RecordedMode,
    pub delta_ms: u64,
}

/// A finished recording: an ordered, timed sequence of key transitions with
/// a stable identity.
#[derive(Debug)]
pub struct Sample {
    pub id: u64,
    pub name: String,
    pub events: Vec<TimedEvent>,
}

/// What a sample holds.
pub struct SampleView {
    pub id: u64,
    pub name: Seq<char>,
    pub events: Seq<TimedEvent>,
}

impl View for Sample {
    type V = SampleView;

    open spec fn view(&self) -> SampleView {
        SampleView { id: self.id, name: self.name@, events: self.events@ }
    }
}

impl Clone for Sample {
    fn clone(&self) -> (copy: Sample)
        ensures
            copy@ == self@,
    {
        Sample { id: self.id, name: self.name.clone(), events: self.events.clone() }
    }
}

/// What each of a sequence of samples holds.
pub open spec fn views_of(samples: Seq<Sample>) -> Seq<SampleView> {
    samples.map_values(|s: Sample| s@)
}

/// The event sequences of a sequence of samples.
pub open spec fn timelines(samples: Seq<Sample>) -> Seq<Seq<TimedEvent>> {
    samples.map_values(|s: Sample| s.events@)
}

/// The event sequences of the samples of a store.
pub open spec fn store_timelines(store: Seq<SampleView>) -> Seq<Seq<TimedEvent>> {
    store.map_values(|s: SampleView| s.events)
}

/// A copy of `samples`.
pub fn clone_samples(samples: &Vec<Sample>) -> (copy: Vec<Sample>)
    ensures
        views_of(copy@) == views_of(samples@),
{
    let mut copy: Vec<Sample> = Vec::new();
    let mut j: usize = 0;
    while j < samples.len()
        invariant
            j <= samples.len(),
            copy@.len() == j,
            forall|h: int| 0 <= h < j ==> (#[trigger] copy@[h])@ == samples@[h]@,
        decreases samples.len() - j,
    {
        copy.push(samples[j].clone());
        j += 1;
    }
    assert(views_of(copy@) =~= views_of(samples@));
    copy
}

/// The greatest id among `samples`, 0 where there are none.
pub fn max_id(samples: &Vec<Sample>) -> (id: u64)
    ensures
        id == greatest_id(views_of(samples@)),
{
    let ghost store = views_of(samples@);
    let mut id: u64 = 0;
    let mut j: usize = 0;
    assert(store.take(0) =~= Seq::<SampleView>::empty());
    while j < samples.len()
        invariant
            j <= samples.len(),
            store == views_of(samples@),
            id == greatest_id(store.take(j as int)),
        decreases samples.len() - j,
    {
        assert(store.take(j + 1).drop_last() =~= store.take(j as int));
        assert(store.take(j + 1).last() == samples@[j as int]@);
        if samples[j].id > id {
            id = samples[j].id;
        }
        j += 1;
    }
    assert(store.take(samples.len() as int) =~= store);
    id
}

/// What was read of the persisted sample file.
#[derive(Debug)]
pub enum Loaded {
    /// There is no file.
    Missing,
    /// The file holds nothing but white space.
    Blank,
    /// The file holds what is no list of samples.
    Malformed,
    /// The file holds these samples.
    Parsed(Vec<SerializableSample>),
}

/// What the caller of `poll_events` is to do.
#[derive(Debug)]
pub enum PollAction {
    /// Nothing.
    Nothing,
    /// Persist the store: a sample was stored and autosave is on.
    Save,
    /// Start a playback of this plan.
    Play(Vec<Planned>),
}

/// The recorder: the live buffer of the open session, the sample store, and
/// the settings that recording, fusing and playback read.
pub struct MacroRecorder {
    pub live_events: Vec<TimedEvent>,
    pub samples: Vec<Sample>,
    pub is_recording: bool,
    pub allowed_keys: Vec<KeyId>,
    pub pressed_keys: KeyTable<()>,
    pub recording_start: Option<u64>,
    pub sample_counter: u64,
    pub per_key_offset: KeyTable<i32>,
    pub hotkey_toggle: RawKey,
    pub hotkey_playback: RawKey,
    /// The outlier factor of mean mode, in thousandths.
    pub outlier_k_milli: u32,
    pub use_median: bool,
    pub playback_offset_ms: i64,
    pub autosave: bool,
}

impl View for MacroRecorder {
    type V = RecorderView;

    open spec fn view(&self) -> RecorderView {
        RecorderView {
            live: self.live_events@,
            store: views_of(self.samples@),
            recording: self.is_recording,
            allowed: self.allowed_keys@,
            pressed: self.pressed_keys@.dom(),
            start: self.recording_start,
            counter: self.sample_counter,
            offsets: self.per_key_offset@,
            hotkey_toggle: self.hotkey_toggle,
            hotkey_playback: self.hotkey_playback,
            outlier_k_milli: self.outlier_k_milli,
            use_median: self.use_median,
            playback_offset_ms: self.playback_offset_ms,
            autosave: self.autosave,
        }
    }
}

impl Default for MacroRecorder {
    /// An idle recorder with an empty store: toggle on F9, replay on F10,
    /// mean mode with an outlier factor of 2, no offsets, autosave on.
    fn default() -> (recorder: MacroRecorder)
        ensures
            recorder@ == (RecorderView {
                live: Seq::empty(),
                store: Seq::empty(),
                recording: false,
                allowed: Seq::empty(),
                pressed: Set::empty(),
                start: None,
                counter: 0,
                offsets: Map::empty(),
                hotkey_toggle: RawKey::F9,
                hotkey_playback: RawKey::F10,
                outlier_k_milli: 2000,
                use_median: false,
                playback_offset_ms: 0,
                autosave: true,
            }),
    {
        let recorder = MacroRecorder {
            live_events: Vec::new(),
            samples: Vec::new(),
            is_recording: false,
            allowed_keys: Vec::new(),
            pressed_keys: KeyTable::new(),
            recording_start: None,
            sample_counter: 0,
            per_key_offset: KeyTable::new(),
            hotkey_toggle: RawKey::F9,
            hotkey_playback: RawKey::F10,
            outlier_k_milli: 2000,
            use_median: false,
            playback_offset_ms: 0,
            autosave: true,
        };
        assert(recorder@.store =~= Seq::<SampleView>::empty());
        assert(recorder@.pressed =~= Set::<KeyId>::empty());
        recorder
    }
}

impl MacroRecorder {
    /// Opens a session at the instant `now`, in nanoseconds on the
    /// listener's clock, with an empty buffer.
    pub fn start_recording(&mut self, now: u64)
        ensures
            final(self)@ == old(self)@.after_start(now),
    {
        self.is_recording = true;
        self.recording_start = Some(now);
        self.live_events.clear();
    }

    /// Closes the session. A buffer that holds events becomes the last
    /// sample of the store, under the next id; an empty buffer leaves no
    /// sample. Returns whether the store is to be persisted: a sample was
    /// stored and autosave is on.
    pub fn finish_recording(&mut self) -> (save: bool)
        requires
            old(self)@.stores_on_finish() ==> old(self)@.counter < u64::MAX,
        ensures
            final(self)@ == old(self)@.after_finish(),
            save == (old(self)@.stores_on_finish() && old(self)@.autosave),
    {
        let mut save = false;
        if self.is_recording && self.live_events.len() > 0 {
            self.sample_counter = self.sample_counter + 1;
            let ghost store = views_of(self.samples@);
            let sample = Sample {
                id: self.sample_counter,
                name: numbered("sample-", self.sample_counter as u128),
                events: self.live_events.clone(),
            };
            self.samples.push(sample);
            assert(views_of(self.samples@) =~= store.push(sample@));
            save = self.autosave;
        }
        self.is_recording = false;
        self.recording_start = None;
        self.live_events.clear();
        save
    }

    /// Empties the buffer and the set of held keys.
    pub fn clear(&mut self)
        ensures
            final(self)@ == (RecorderView {
                live: Seq::empty(),
                pressed: Set::empty(),
                ..old(self)@
            }),
    {
        self.live_events.clear();
        self.pressed_keys.clear();
        assert(self@.pressed =~= Set::<KeyId>::empty());
    }

    /// Takes one edge of a logical key, captured at the instant `at`.
    pub fn on_edge(&mut self, key: KeyId, mode: RecordedMode, at: u64)
        ensures
            final(self)@ == old(self)@.after_edge(key, mode, at),
    {
        if !self.is_recording {
            return;
        }
        if self.allowed_keys.len() > 0 && !contains_key(&self.allowed_keys, key) {
            return;
        }
        if let Some(start) = self.recording_start {
            let delta_ms: u64 = if at <= start {
                0
            } else {
                (at - start) / 1_000_000
            };
            self.live_events.push(TimedEvent { key, mode, delta_ms });
        }
        match mode {
            RecordedMode::Press => {
                self.pressed_keys.insert(key, ());
                assert(self.pressed_keys@.dom() =~= old(self).pressed_keys@.dom().insert(key));
            },
            RecordedMode::Release => {
                self.pressed_keys.remove(key);
                assert(self.pressed_keys@.dom() =~= old(self).pressed_keys@.dom().remove(key));
            },
        }
    }
}

/// What `poll_events` hands back for a press of the replay hotkey: a plan
/// of the fused timeline under the offsets of the recorder, and nothing
/// where the fused timeline is empty.
pub open spec fn replay_outcome(v: RecorderView, action: PollAction) -> bool {
    let tl = store_timelines(v.store);
    if fused(tl, v.use_median, v.outlier_k_milli).len() == 0 {
        action is Nothing
    } else {
        action matches PollAction::Play(plan) && exists|events: Seq<TimedEvent>|
            #[trigger] ascending(events) && events.to_multiset() == fused(
                tl,
                v.use_median,
                v.outlier_k_milli,
            ).to_multiset() && plan@ == plan_of(events, v.playback_offset_ms, v.offsets)
    }
}

/// What `poll_events` hands back for an update.
pub open spec fn poll_outcome(v: RecorderView, update: KeyUpdate, action: PollAction) -> bool {
    if v.is_toggle(update) {
        if v.stores_on_finish() && v.autosave {
            action is Save
        } else {
            action is Nothing
        }
    } else if v.is_replay(update) {
        replay_outcome(v, action)
    } else {
        action is Nothing
    }
}

/// The first sample of `store` with the id `id` is at `at`.
pub open spec fn first_with_id(store: Seq<SampleView>, id: u64, at: int) -> bool {
    &&& 0 <= at < store.len()
    &&& store[at].id == id
    &&& forall|j: int| 0 <= j < at ==> (#[trigger] store[j]).id != id
}

/// No sample of `store` has the id `id`.
pub open spec fn no_such_id(store: Seq<SampleView>, id: u64) -> bool {
    forall|j: int| 0 <= j < store.len() ==> (#[trigger] store[j]).id != id
}

/// The test that a sample passes when its id is not `id`.
pub open spec fn other_than(id: u64) -> spec_fn(SampleView) -> bool {
    |s: SampleView| s.id != id
}

/// The position of the first sample with the id `id`.
pub fn find_sample(samples: &Vec<Sample>, id: u64) -> (at: Option<usize>)
    ensures
        match at {
            Some(i) => first_with_id(views_of(samples@), id, i as int),
            None => no_such_id(views_of(samples@), id),
        },
{
    let mut j: usize = 0;
    while j < samples.len()
        invariant
            j <= samples.len(),
            forall|h: int| 0 <= h < j ==> (#[trigger] views_of(samples@)[h]).id != id,
        decreases samples.len() - j,
    {
        if samples[j].id == id {
            return Some(j);
        }
        j += 1;
    }
    None
}

/// The event sequences of samples are those of what the samples hold.
pub proof fn lemma_timelines_of_views(samples: Seq<Sample>)
    ensures
        timelines(samples) == store_timelines(views_of(samples)),
{
    assert(timelines(samples) =~= store_timelines(views_of(samples)));
}

impl MacroRecorder {
    /// Takes one update that was polled from the keyboard listener, at the
    /// instant `now`. A press of the toggle hotkey opens a session or closes
    /// the open one; a press of the replay hotkey asks for a playback of the
    /// fused timeline; any other update is an edge of the key it maps to, if
    /// it maps to one.
    pub fn poll_events(&mut self, update: KeyUpdate, now: u64) -> (action: PollAction)
        requires
            old(self)@.is_toggle(update) && old(self)@.stores_on_finish() ==> old(self)@.counter
                < u64::MAX,
        ensures
            final(self)@ == old(self)@.after_update(update, now),
            poll_outcome(old(self)@, update, action),
    {
        if update.key == self.hotkey_toggle && update.mode == RecordedMode::Press {
            if self.is_recording {
                if self.finish_recording() {
                    return PollAction::Save;
                }
            } else {
                self.start_recording(now);
            }
            return PollAction::Nothing;
        }
        if update.key == self.hotkey_playback && update.mode == RecordedMode::Press {
            proof {
                lemma_timelines_of_views(self.samples@);
            }
            let events = fuse(&self.samples, self.use_median, self.outlier_k_milli);
            proof {
                vstd::seq_lib::to_multiset_len(events@);
                vstd::seq_lib::to_multiset_len(
                    fused(store_timelines(self@.store), self.use_median, self.outlier_k_milli),
                );
            }
            if events.len() == 0 {
                return PollAction::Nothing;
            }
            let plan = plan_events(&events, self.playback_offset_ms, &self.per_key_offset);
            assert(ascending(events@));
            return PollAction::Play(plan);
        }
        if let Some(key) = map_key(update.key) {
            self.on_edge(key, update.mode, update.at);
        }
        PollAction::Nothing
    }

    /// The fused timeline of the store: one event for each bucket of each
    /// aligned slot, in ascending order of offset. It is worked out anew at
    /// every call.
    pub fn timing_map(&self) -> (events: Vec<TimedEvent>)
        ensures
            ascending(events@),
            events@.to_multiset() == fused(
                store_timelines(self@.store),
                self@.use_median,
                self@.outlier_k_milli,
            ).to_multiset(),
    {
        proof {
            lemma_timelines_of_views(self.samples@);
        }
        fuse(&self.samples, self.use_median, self.outlier_k_milli)
    }

    /// The plan of a playback of `events` under a global offset and per-key
    /// offsets.
    pub fn play_events(events: Vec<TimedEvent>, offset_ms: i64, per_key_offset: &KeyTable<i32>) -> (plan: Vec<
        Planned,
    >)
        ensures
            plan@ == plan_of(events@, offset_ms, per_key_offset@),
    {
        plan_events(&events, offset_ms, per_key_offset)
    }

    /// The plan of a playback of the first sample with the id `sample_id`,
    /// under the offsets of the recorder; `None` where no sample has that
    /// id.
    pub fn play_sample(&self, sample_id: u64) -> (plan: Option<Vec<Planned>>)
        ensures
            match plan {
                Some(p) => exists|at: int|
                    first_with_id(self@.store, sample_id, at) && p@ == plan_of(
                        self@.store[at].events,
                        self@.playback_offset_ms,
                        self@.offsets,
                    ),
                None => no_such_id(self@.store, sample_id),
            },
    {
        match find_sample(&self.samples, sample_id) {
            Some(i) => {
                let plan = plan_events(
                    &self.samples[i].events,
                    self.playback_offset_ms,
                    &self.per_key_offset,
                );
                assert(first_with_id(self@.store, sample_id, i as int));
                Some(plan)
            },
            None => None,
        }
    }

    /// The plan of a playback of `events` under the offsets of the recorder.
    pub fn play_timing_map(&self, events: Vec<TimedEvent>) -> (plan: Vec<Planned>)
        ensures
            plan@ == plan_of(events@, self@.playback_offset_ms, self@.offsets),
    {
        plan_events(&events, self.playback_offset_ms, &self.per_key_offset)
    }

    /// Sets the playback offset of `key`, in milliseconds.
    pub fn set_key_offset(&mut self, key: KeyId, offset: i32)
        ensures
            final(self)@ == (RecorderView {
                offsets: old(self)@.offsets.insert(key, offset),
                ..old(self)@
            }),
    {
        self.per_key_offset.insert(key, offset);
    }

    /// The playback offsets of the recognized keys, each key once.
    pub fn key_offsets_snapshot(&self) -> (offsets: Vec<(KeyId, i32)>)
        ensures
            distinct_keys(offsets@),
            forall|k: KeyId, v: i32|
                offsets@.contains((k, v)) <==> is_recognized(k) && self@.offsets.contains_pair(k, v),
    {
        let pairs = self.per_key_offset.to_vec();
        let mut offsets: Vec<(KeyId, i32)> = Vec::new();
        let ghost mut origin: Seq<int> = Seq::empty();
        let mut i: usize = 0;
        while i < pairs.len()
            invariant
                i <= pairs.len(),
                origin.len() == offsets@.len(),
                forall|h: int|
                    0 <= h < origin.len() ==> 0 <= #[trigger] origin[h] < i && offsets@[h]
                        == pairs@[origin[h]],
                forall|g: int, h: int| 0 <= g < h < origin.len() ==> origin[g] < origin[h],
                forall|h: int| 0 <= h < offsets@.len() ==> is_recognized((#[trigger] offsets@[h]).0),
                forall|j: int|
                    0 <= j < i && is_recognized(pairs@[j].0) ==> offsets@.contains(
                        #[trigger] pairs@[j],
                    ),
            decreases pairs.len() - i,
        {
            let pair = pairs[i];
            let recognized = match pair.0 {
                KeyId::Backspace => false,
                _ => true,
            };
            if recognized {
                let ghost before = offsets@;
                offsets.push(pair);
                proof {
                    origin = origin.push(i as int);
                    assert forall|j: int|
                        0 <= j < i + 1 && is_recognized(pairs@[j].0) implies offsets@.contains(
                        #[trigger] pairs@[j],
                    ) by {
                        if j < i {
                            let h = choose|h: int| 0 <= h < before.len() && before[h] == pairs@[j];
                            assert(offsets@[h] == pairs@[j]);
                        } else {
                            assert(offsets@[before.len() as int] == pairs@[j]);
                        }
                    }
                }
            }
            i += 1;
        }
        proof {
            assert forall|g: int, h: int|
                0 <= g < offsets@.len() && 0 <= h < offsets@.len() && g != h implies offsets@[g].0
                != offsets@[h].0 by {
                assert(origin[g] != origin[h]);
            }
            assert forall|k: KeyId, v: i32| offsets@.contains((k, v)) <==> is_recognized(k)
                && self@.offsets.contains_pair(k, v) by {
                if offsets@.contains((k, v)) {
                    let h = choose|h: int| 0 <= h < offsets@.len() && offsets@[h] == (k, v);
                    assert(pairs@[origin[h]] == (k, v));
                    assert(pairs@.contains((k, v)));
                }
                if is_recognized(k) && self@.offsets.contains_pair(k, v) {
                    assert(pairs@.contains((k, v)));
                    let j = choose|j: int| 0 <= j < pairs@.len() && pairs@[j] == (k, v);
                    assert(offsets@.contains(pairs@[j]));
                }
            }
        }
        offsets
    }

    /// Sets the allow-list. With an empty list every mapped key is recorded.
    pub fn set_allowed_keys(&mut self, keys: Vec<KeyId>)
        ensures
            final(self)@ == (RecorderView { allowed: keys@, ..old(self)@ }),
    {
        self.allowed_keys = keys;
    }

    /// The allow-list.
    pub fn allowed_keys_snapshot(&self) -> (keys: Vec<KeyId>)
        ensures
            keys@ == self@.allowed,
    {
        self.allowed_keys.clone()
    }

    /// The keys that are held, each once.
    pub fn pressed_keys_snapshot(&self) -> (keys: Vec<KeyId>)
        ensures
            keys@.no_duplicates(),
            keys@.to_set() == self@.pressed,
    {
        let pairs = self.pressed_keys.to_vec();
        let mut keys: Vec<KeyId> = Vec::new();
        let mut i: usize = 0;
        while i < pairs.len()
            invariant
                i <= pairs.len(),
                keys@.len() == i,
                forall|j: int| 0 <= j < i ==> keys@[j] == (#[trigger] pairs@[j]).0,
            decreases pairs.len() - i,
        {
            keys.push(pairs[i].0);
            i += 1;
        }
        proof {
            assert forall|k: KeyId| keys@.to_set().contains(k) <==> self@.pressed.contains(k) by {
                if keys@.to_set().contains(k) {
                    let j = choose|j: int| 0 <= j < keys@.len() && keys@[j] == k;
                    assert(pairs@[j].0 == k);
                }
                if self@.pressed.contains(k) {
                    assert(self.pressed_keys@.contains_pair(k, ()));
                    assert(pairs@.contains((k, ())));
                    let j = choose|j: int| 0 <= j < pairs@.len() && pairs@[j] == (k, ());
                    assert(keys@[j] == k);
                }
            }
            assert(keys@.to_set() =~= self@.pressed);
            assert forall|g: int, h: int|
                0 <= g < keys@.len() && 0 <= h < keys@.len() && g != h implies keys@[g]
                != keys@[h] by {
                assert(pairs@[g].0 != pairs@[h].0);
            }
        }
        keys
    }

    /// Sets the two hotkeys.
    pub fn set_hotkeys(&mut self, toggle: RawKey, playback: RawKey)
        ensures
            final(self)@ == (RecorderView {
                hotkey_toggle: toggle,
                hotkey_playback: playback,
                ..old(self)@
            }),
    {
        self.hotkey_toggle = toggle;
        self.hotkey_playback = playback;
    }

    /// A copy of the store.
    pub fn samples_snapshot(&self) -> (samples: Vec<Sample>)
        ensures
            views_of(samples@) == self@.store,
    {
        clone_samples(&self.samples)
    }

    /// Removes every sample with the id `id`. The caller persists the store
    /// afterwards.
    pub fn delete_sample(&mut self, id: u64)
        ensures
            final(self)@ == (RecorderView {
                store: old(self)@.store.filter(other_than(id)),
                ..old(self)@
            }),
    {
        let ghost store = views_of(self.samples@);
        let mut kept: Vec<Sample> = Vec::new();
        let mut j: usize = 0;
        proof {
            reveal(Seq::filter);
            assert(store.take(0) =~= Seq::<SampleView>::empty());
        }
        while j < self.samples.len()
            invariant
                j <= self.samples.len(),
                store == views_of(self.samples@),
                *self == *old(self),
                views_of(kept@) == store.take(j as int).filter(other_than(id)),
            decreases self.samples.len() - j,
        {
            proof {
                reveal(Seq::filter);
                assert(store.take(j + 1).drop_last() =~= store.take(j as int));
                assert(store.take(j + 1).last() == self.samples@[j as int]@);
            }
            if self.samples[j].id != id {
                let ghost before = views_of(kept@);
                kept.push(self.samples[j].clone());
                assert(views_of(kept@) =~= before.push(self.samples@[j as int]@));
            }
            j += 1;
        }
        assert(store.take(self.samples.len() as int) =~= store);
        self.samples = kept;
    }

    /// Gives the first sample with the id `id` the name `name`. Returns
    /// whether the store is to be persisted: there is such a sample and
    /// autosave is on.
    pub fn rename_sample(&mut self, id: u64, name: String) -> (save: bool)
        ensures
            no_such_id(old(self)@.store, id) ==> final(self)@ == old(self)@ && !save,
            forall|at: int|
                first_with_id(old(self)@.store, id, at) ==> save == old(self)@.autosave
                    && final(self)@ == (RecorderView {
                    store: old(self)@.store.update(
                        at,
                        SampleView { name: name@, ..old(self)@.store[at] },
                    ),
                    ..old(self)@
                }),
    {
        match find_sample(&self.samples, id) {
            Some(i) => {
                let ghost store = views_of(self.samples@);
                let sample = self.samples.remove(i);
                let renamed = Sample { id: sample.id, name, events: sample.events };
                self.samples.insert(i, renamed);
                assert(views_of(self.samples@) =~= store.update(
                    i as int,
                    SampleView { name: name@, ..store[i as int] },
                ));
                self.autosave
            },
            None => false,
        }
    }

    /// Swaps the sample at `index` with the one after it, in memory only.
    /// Nothing changes where there is no sample after `index`.
    pub fn reorder(&mut self, index: usize)
        ensures
            final(self)@ == (if index + 1 < old(self)@.store.len() {
                RecorderView {
                    store: old(self)@.store.update(
                        index as int,
                        old(self)@.store[index + 1],
                    ).update(index + 1, old(self)@.store[index as int]),
                    ..old(self)@
                }
            } else {
                old(self)@
            }),
    {
        if index < self.samples.len() && index + 1 < self.samples.len() {
            let ghost store = views_of(self.samples@);
            let sample = self.samples.remove(index);
            self.samples.insert(index + 1, sample);
            assert(views_of(self.samples@) =~= store.update(index as int, store[index + 1]).update(
                index + 1,
                store[index as int],
            ));
        }
    }

    /// The persisted form of the store.
    pub fn to_serializable(&self) -> (serial: Vec<SerializableSample>)
        ensures
            serial_views(serial@) == crate::persist::encode_store(self@.store),
    {
        crate::persist::to_serializable(&self.samples)
    }

    /// Takes over what was read of the persisted sample file. Samples that
    /// were read replace the whole store, and the id counter restarts at the
    /// greatest id among them; what is no list of samples counts as an empty
    /// list. A missing or blank file leaves the recorder as it is.
    pub fn load_from_disk(&mut self, loaded: Loaded)
        ensures
            final(self)@ == (match loaded {
                Loaded::Missing => old(self)@,
                Loaded::Blank => old(self)@,
                Loaded::Malformed => RecorderView {
                    store: Seq::empty(),
                    counter: 0,
                    ..old(self)@
                },
                Loaded::Parsed(list) => RecorderView {
                    store: decode_store(serial_views(list@)),
                    counter: greatest_id(decode_store(serial_views(list@))),
                    ..old(self)@
                },
            }),
    {
        match loaded {
            Loaded::Missing => {},
            Loaded::Blank => {},
            Loaded::Malformed => {
                self.samples = Vec::new();
                self.sample_counter = 0;
                assert(views_of(self.samples@) =~= Seq::<SampleView>::empty());
            },
            Loaded::Parsed(list) => {
                let converted = from_serializable(list);
                self.sample_counter = max_id(&converted);
                self.samples = converted;
            },
        }
    }
}

} // verus!
