//! The live session of the overlay: recording into named samples, merging
//! them, tracking keys for display, and deciding when a playback worker is
//! started and when it is cancelled and joined.

use vstd::prelude::*;
use crate::keys::{contains_key, convert_key, converted_key, KeyId, RawKey};
use crate::keytable::KeyTable;
use crate::macro_play::{
    command_views, halt, halt_sequence, launch, launch_sequence, plan_timeline, session_plan,
    watch_sequence, watched, Command, CommandView,
};
use crate::names::{decimal, numbered};
use crate::schema::{KeyAction, TimedEvent};
use crate::sorting::{ascending, same_order_of_equals, sorted_by_stamp};

verus! {

/// A finished session: its events under a name.
#[derive(Debug)]
pub struct Sample {
    pub name: String,
    pub events: Vec<TimedEvent>,
}

/// What a sample holds.
pub struct SampleView {
    pub name: Seq<char>,
    pub events: Seq<TimedEvent>,
}

impl View for Sample {
    type V = SampleView;

    open spec fn view(&self) -> SampleView {
        SampleView { name: self.name@, events: self.events@ }
    }
}

impl Clone for Sample {
    fn clone(&self) -> (copy: Sample)
        ensures
            copy@ == self@,
    {
        Sample { name: self.name.clone(), events: self.events.clone() }
    }
}

/// What each of a sequence of samples holds.
pub open spec fn views_of(samples: Seq<Sample>) -> Seq<SampleView> {
    samples.map_values(|s: Sample| s@)
}

/// One event from the input listener.
#[derive(Clone, Copy, Debug, PartialEq, Eq, Structural)]
pub enum InputEvent {
    KeyPress(RawKey),
    KeyRelease(RawKey),
    /// Anything that is no key transition.
    Other,
}

/// The state of the overlay's session.
pub struct AppState {
    pub recording: bool,
    pub start: Option<u64>,
    pub current_events: Vec<TimedEvent>,
    pub samples: Vec<Sample>,
    pub playback_stop: bool,
    /// Whether a playback worker was started and not joined since.
    pub playback_handle: bool,
    pub playback_offset_ms: i64,
    pub playing: bool,
    pub tracked_keys: Vec<KeyId>,
    pub key_states: KeyTable<bool>,
}

/// What the state of the overlay's session holds.
pub struct AppView {
    pub recording: bool,
    pub start: Option<u64>,
    pub current: Seq<TimedEvent>,
    pub samples: Seq<SampleView>,
    pub playback_stop: bool,
    pub worker_held: bool,
    pub playback_offset_ms: i64,
    pub playing: bool,
    pub watched: Seq<KeyId>,
    pub key_states: Map<KeyId, bool>,
}

impl View for AppState {
    type V = AppView;

    open spec fn view(&self) -> AppView {
        AppView {
            recording: self.recording,
            start: self.start,
            current: self.current_events@,
            samples: views_of(self.samples@),
            playback_stop: self.playback_stop,
            worker_held: self.playback_handle,
            playback_offset_ms: self.playback_offset_ms,
            playing: self.playing,
            watched: self.tracked_keys@,
            key_states: self.key_states@,
        }
    }
}

/// The name of the `n`-th sample of a session.
pub open spec fn session_name(n: nat) -> Seq<char> {
    "Sample "@ + decimal(n)
}

/// The name of a merged sample that becomes the `n`-th sample.
pub open spec fn merged_name(n: nat) -> Seq<char> {
    "Merged "@ + decimal(n)
}

/// The events of the first `n` samples, one sample after the other.
pub open spec fn events_of(samples: Seq<SampleView>, n: int) -> Seq<TimedEvent>
    decreases n,
{
    if n <= 0 {
        Seq::empty()
    } else {
        events_of(samples, n - 1) + samples[n - 1].events
    }
}

impl AppView {
    /// After `start_recording` at the instant `now`.
    pub open spec fn after_start(self, now: u64) -> AppView {
        AppView { current: Seq::empty(), start: Some(now), recording: true, ..self }
    }

    /// `stop_recording` would store a sample.
    pub open spec fn stores_on_stop(self) -> bool {
        self.recording && self.current.len() > 0
    }

    /// After `stop_recording`: no session is open; events of an open
    /// session are stored as a new last sample.
    pub open spec fn after_stop(self) -> AppView {
        AppView {
            recording: false,
            samples: if self.stores_on_stop() {
                self.samples.push(
                    SampleView {
                        name: session_name((self.samples.len() + 1) as nat),
                        events: self.current,
                    },
                )
            } else {
                self.samples
            },
            ..self
        }
    }

    /// After `stop_playback`: cancellation is requested, no worker is held,
    /// nothing plays.
    pub open spec fn after_halt(self) -> AppView {
        AppView { playback_stop: true, worker_held: false, playing: false, ..self }
    }

    /// After a playback was started: cancellation is withdrawn, the new
    /// worker is held, and the session plays.
    pub open spec fn after_launch(self) -> AppView {
        AppView { playback_stop: false, worker_held: true, playing: true, ..self }
    }

    /// The commands that start a playback of `events`: those of a launch of
    /// their plan under the playback offset.
    pub open spec fn launch_commands(self, events: Seq<TimedEvent>) -> Seq<CommandView> {
        launch_sequence(self.worker_held, session_plan(events, self.playback_offset_ms))
    }

    /// After an edge of `key`, pressed or released, at the instant `now` of
    /// a session that began at `start`.
    pub open spec fn after_key(self, key: KeyId, down: bool, start: u64, now: u64) -> AppView {
        AppView {
            key_states: self.key_states.insert(key, down),
            current: self.current.push(
                TimedEvent {
                    at: if now <= start {
                        0
                    } else {
                        (now - start) as u64
                    },
                    action: if down {
                        KeyAction::Down(key)
                    } else {
                        KeyAction::Up(key)
                    },
                },
            ),
            ..self
        }
    }
}

/// Whether a character is white space, as `char::is_whitespace` of the
/// standard library tells it.
pub uninterp spec fn white_space(c: char) -> bool;

/// `char::is_whitespace` of the standard library: whether the character has
/// the Unicode property White_Space. The answer depends on the character
/// alone.
#[verifier::external_body]
fn is_whitespace(c: char) -> (white: bool)
    ensures
        white == white_space(c),
{
    c.is_whitespace()
}

/// The tracked keys after the characters `chars` were offered, in their
/// order: a character that is no white space joins the list as a key of the
/// layout unless that key is in it.
pub open spec fn with_chars(keys: Seq<KeyId>, chars: Seq<char>) -> Seq<KeyId>
    decreases chars.len(),
{
    if chars.len() == 0 {
        keys
    } else {
        let rest = with_chars(keys, chars.drop_last());
        let key = KeyId::Layout(chars.last());
        if white_space(chars.last()) || rest.contains(key) {
            rest
        } else {
            rest.push(key)
        }
    }
}

/// The state of `key` for display: down or up, and up where nothing is
/// known of the key.
pub open spec fn shown_state(states: Map<KeyId, bool>, key: KeyId) -> bool {
    states.contains_key(key) && states[key]
}

/// Records `action` into `sink` at the instant `now` of a session that
/// began at `start`, both in nanoseconds on one clock.
pub fn push_event(action: KeyAction, start: u64, now: u64, sink: &mut Vec<TimedEvent>)
    ensures
        final(sink)@ == old(sink)@.push(
            TimedEvent {
                at: if now <= start {
                    0
                } else {
                    (now - start) as u64
                },
                action,
            },
        ),
{
    let at: u64 = if now <= start {
        0
    } else {
        now - start
    };
    sink.push(TimedEvent { at, action });
}

impl AppView {
    /// The event is a press of the key that opens and closes sessions.
    pub open spec fn is_record_key(event: InputEvent) -> bool {
        event == InputEvent::KeyPress(RawKey::F9)
    }

    /// The event is a press of the key that starts and stops playback.
    pub open spec fn is_play_key(event: InputEvent) -> bool {
        event == InputEvent::KeyPress(RawKey::F10)
    }

    /// The last sample holds events.
    pub open spec fn can_play_latest(self) -> bool {
        self.samples.len() > 0 && self.samples.last().events.len() > 0
    }

    /// After a key transition of an open session at the instant `now`.
    pub open spec fn after_transition(self, event: InputEvent, now: u64) -> AppView {
        match (self.recording, self.start, event) {
            (true, Some(start), InputEvent::KeyPress(raw)) => match converted_key(raw) {
                Some(key) => self.after_key(key, true, start, now),
                None => self,
            },
            (true, Some(start), InputEvent::KeyRelease(raw)) => match converted_key(raw) {
                Some(key) => self.after_key(key, false, start, now),
                None => self,
            },
            _ => self,
        }
    }

    /// After one event from the listener, handled at the instant `now`.
    pub open spec fn after_event(self, event: InputEvent, now: u64) -> AppView {
        if Self::is_record_key(event) {
            if self.recording {
                self.after_stop()
            } else {
                self.after_start(now)
            }
        } else if Self::is_play_key(event) {
            if self.playing {
                self.after_halt()
            } else if self.after_stop().can_play_latest() {
                self.after_stop().after_launch()
            } else {
                self.after_stop()
            }
        } else {
            self.after_transition(event, now)
        }
    }

    /// The commands that the event asks for.
    pub open spec fn commands_for(self, event: InputEvent) -> Seq<CommandView> {
        if Self::is_play_key(event) {
            if self.playing {
                self.halt_commands()
            } else if self.after_stop().can_play_latest() {
                self.after_stop().launch_commands(self.after_stop().samples.last().events)
            } else {
                Seq::empty()
            }
        } else {
            Seq::empty()
        }
    }

    /// The commands of `stop_playback`.
    pub open spec fn halt_commands(self) -> Seq<CommandView> {
        halt_sequence(self.worker_held)
    }
}

impl AppState {
    /// An idle session: nothing recorded, nothing playing, no key tracked.
    pub fn new() -> (state: AppState)
        ensures
            state@ == (AppView {
                recording: false,
                start: None,
                current: Seq::empty(),
                samples: Seq::empty(),
                playback_stop: false,
                worker_held: false,
                playback_offset_ms: 0,
                playing: false,
                watched: Seq::empty(),
                key_states: Map::empty(),
            }),
    {
        let state = AppState {
            recording: false,
            start: None,
            current_events: Vec::new(),
            samples: Vec::new(),
            playback_stop: false,
            playback_handle: false,
            playback_offset_ms: 0,
            playing: false,
            tracked_keys: Vec::new(),
            key_states: KeyTable::new(),
        };
        assert(state@.samples =~= Seq::<SampleView>::empty());
        state
    }

    /// Opens a session at the instant `now`, with an empty buffer.
    pub fn start_recording(&mut self, now: u64)
        ensures
            final(self)@ == old(self)@.after_start(now),
    {
        self.current_events.clear();
        self.start = Some(now);
        self.recording = true;
    }

    /// Closes the session. Events of an open session are stored as a new
    /// last sample; without events, or without an open session, no sample
    /// is stored.
    pub fn stop_recording(&mut self)
        ensures
            final(self)@ == old(self)@.after_stop(),
    {
        let was_recording = self.recording;
        self.recording = false;
        if !was_recording {
            return;
        }
        if self.current_events.len() > 0 {
            let ghost before = views_of(self.samples@);
            let number: u128 = self.samples.len() as u128 + 1;
            let sample = Sample {
                name: numbered("Sample ", number),
                events: self.current_events.clone(),
            };
            self.samples.push(sample);
            assert(views_of(self.samples@) =~= before.push(sample@));
        }
    }
}

impl AppState {
    /// Cancels playback: cancellation is requested of the worker, and the
    /// worker that is held, if there is one, is to be joined.
    pub fn stop_playback(&mut self) -> (commands: Vec<Command>)
        ensures
            final(self)@ == old(self)@.after_halt(),
            command_views(commands@) == old(self)@.halt_commands(),
    {
        let commands = halt(self.playback_handle);
        self.playback_stop = true;
        self.playback_handle = false;
        self.playing = false;
        commands
    }

    /// Starts a playback of `sample`. An empty sample starts nothing and
    /// changes nothing. Else the worker that is held, if there is one, is
    /// cancelled and joined first, and only then a new worker is started on
    /// the plan of `sample` under the playback offset.
    pub fn playback_sample(&mut self, sample: &Vec<TimedEvent>) -> (commands: Vec<Command>)
        ensures
            sample@.len() == 0 ==> final(self)@ == old(self)@ && commands@.len() == 0,
            sample@.len() > 0 ==> final(self)@ == old(self)@.after_launch() && command_views(
                commands@,
            ) == old(self)@.launch_commands(sample@),
    {
        if sample.len() == 0 {
            return Vec::new();
        }
        let plan = plan_timeline(sample, self.playback_offset_ms);
        let commands = launch(self.playback_handle, plan);
        self.playback_stop = false;
        self.playing = true;
        self.playback_handle = true;
        commands
    }

    /// Starts a playback of the last sample, if there is one and it holds
    /// events.
    pub fn playback_latest(&mut self) -> (commands: Vec<Command>)
        ensures
            !old(self)@.can_play_latest() ==> final(self)@ == old(self)@ && commands@.len() == 0,
            old(self)@.can_play_latest() ==> final(self)@ == old(self)@.after_launch()
                && command_views(commands@) == old(self)@.launch_commands(
                old(self)@.samples.last().events,
            ),
    {
        let count = self.samples.len();
        if count == 0 {
            return Vec::new();
        }
        let events = self.samples[count - 1].events.clone();
        self.playback_sample(&events)
    }

    /// The watcher of a playback reports back: the worker that is held, if
    /// there is one, is to be joined, and nothing plays any more.
    pub fn watcher_fired(&mut self) -> (commands: Vec<Command>)
        ensures
            final(self)@ == (AppView { worker_held: false, playing: false, ..old(self)@ }),
            command_views(commands@) == watch_sequence(old(self)@.worker_held),
    {
        let commands = watched(self.playback_handle);
        self.playback_handle = false;
        self.playing = false;
        commands
    }

    /// Merges the samples into one timeline and stores it as a new last
    /// sample: the events of all samples, in ascending order of their
    /// instants, events of one instant in the order of their samples.
    /// Without samples, or without events, nothing is stored.
    /// Returns whether a sample was stored.
    pub fn merge_samples(&mut self) -> (stored: bool)
        ensures
            stored == (events_of(old(self)@.samples, old(self)@.samples.len() as int).len() > 0),
            !stored ==> final(self)@ == old(self)@,
            stored ==> {
                let merged = final(self)@.samples.last();
                &&& final(self)@ == (AppView {
                    samples: old(self)@.samples.push(merged),
                    ..old(self)@
                })
                &&& merged.name == merged_name((old(self)@.samples.len() + 1) as nat)
                &&& ascending(merged.events)
                &&& same_order_of_equals(
                    merged.events,
                    events_of(old(self)@.samples, old(self)@.samples.len() as int),
                )
                &&& merged.events.to_multiset() == events_of(
                    old(self)@.samples,
                    old(self)@.samples.len() as int,
                ).to_multiset()
            },
    {
        let ghost store = views_of(self.samples@);
        let mut all: Vec<TimedEvent> = Vec::new();
        let mut j: usize = 0;
        while j < self.samples.len()
            invariant
                j <= self.samples.len(),
                *self == *old(self),
                store == views_of(self.samples@),
                all@ == events_of(store, j as int),
            decreases self.samples.len() - j,
        {
            let events = &self.samples[j].events;
            let ghost before = all@;
            let mut i: usize = 0;
            while i < events.len()
                invariant
                    i <= events.len(),
                    all@ == before + events@.take(i as int),
                decreases events.len() - i,
            {
                all.push(events[i]);
                assert(events@.take(i + 1) =~= events@.take(i as int).push(events@[i as int]));
                assert(all@ =~= before + events@.take(i + 1));
                i += 1;
            }
            assert(events@.take(events.len() as int) =~= events@);
            assert(store[j as int].events == events@);
            j += 1;
        }
        if all.len() == 0 {
            return false;
        }
        let merged = sorted_by_stamp(&all);
        let number: u128 = self.samples.len() as u128 + 1;
        let sample = Sample { name: numbered("Merged ", number), events: merged };
        self.samples.push(sample);
        assert(views_of(self.samples@) =~= store.push(sample@));
        true
    }

    /// Removes the sample at `idx`, if there is one.
    pub fn delete_sample(&mut self, idx: usize)
        ensures
            final(self)@ == (if idx < old(self)@.samples.len() {
                AppView { samples: old(self)@.samples.remove(idx as int), ..old(self)@ }
            } else {
                old(self)@
            }),
    {
        if idx < self.samples.len() {
            let ghost store = views_of(self.samples@);
            self.samples.remove(idx);
            assert(views_of(self.samples@) =~= store.remove(idx as int));
        }
    }

    /// The tracked keys.
    pub fn tracked_keys(&self) -> (keys: Vec<KeyId>)
        ensures
            keys@ == self@.watched,
    {
        self.tracked_keys.clone()
    }

    /// Tracks a key of the layout for every character of `text` that is no
    /// white space and whose key is not tracked yet.
    pub fn add_tracked_keys_from_text(&mut self, text: &str)
        ensures
            final(self)@ == (AppView {
                watched: with_chars(old(self)@.watched, text@),
                ..old(self)@
            }),
    {
        let n = text.unicode_len();
        let mut i: usize = 0;
        assert(text@.take(0) =~= Seq::<char>::empty());
        while i < n
            invariant
                i <= n,
                n == text@.len(),
                self@ == (AppView {
                    watched: with_chars(old(self)@.watched, text@.take(i as int)),
                    ..old(self)@
                }),
            decreases n - i,
        {
            let ch = text.get_char(i);
            proof {
                assert(text@.take(i + 1).drop_last() =~= text@.take(i as int));
                assert(text@.take(i + 1).last() == ch);
            }
            if !is_whitespace(ch) {
                let key = KeyId::Layout(ch);
                if !contains_key(&self.tracked_keys, key) {
                    self.tracked_keys.push(key);
                }
            }
            i += 1;
        }
        assert(text@.take(n as int) =~= text@);
    }

    /// Stops tracking the key at `idx`, if there is one.
    pub fn remove_tracked_key(&mut self, idx: usize)
        ensures
            final(self)@ == (if idx < old(self)@.watched.len() {
                AppView { watched: old(self)@.watched.remove(idx as int), ..old(self)@ }
            } else {
                old(self)@
            }),
    {
        if idx < self.tracked_keys.len() {
            self.tracked_keys.remove(idx);
        }
    }

    /// The tracked keys in their order, each with its state for display.
    pub fn tracked_key_states(&self) -> (states: Vec<(KeyId, bool)>)
        ensures
            states@ == self@.watched.map_values(
                |k: KeyId| (k, shown_state(self@.key_states, k)),
            ),
    {
        let mut states: Vec<(KeyId, bool)> = Vec::new();
        let mut i: usize = 0;
        while i < self.tracked_keys.len()
            invariant
                i <= self.tracked_keys.len(),
                states@.len() == i,
                forall|j: int|
                    0 <= j < i ==> states@[j] == (
                        self.tracked_keys@[j],
                        shown_state(self.key_states@, self.tracked_keys@[j]),
                    ),
            decreases self.tracked_keys.len() - i,
        {
            let key = self.tracked_keys[i];
            let down = match self.key_states.get(key) {
                Some(state) => state,
                None => false,
            };
            states.push((key, down));
            i += 1;
        }
        assert(states@ =~= self@.watched.map_values(
            |k: KeyId| (k, shown_state(self@.key_states, k)),
        ));
        states
    }
}

/// Handles one event from the listener at the instant `now`. F9 opens a
/// session or closes the open one. F10 stops the playback that runs, or
/// closes the session and plays the last sample. Any other key transition
/// of an open session is recorded, if the key maps to a logical key.
pub fn handle_event(state: &mut AppState, event: InputEvent, now: u64) -> (commands: Vec<Command>)
    ensures
        final(state)@ == old(state)@.after_event(event, now),
        command_views(commands@) == old(state)@.commands_for(event),
{
    if let InputEvent::KeyPress(key) = event {
        match key {
            RawKey::F9 => {
                if state.recording {
                    state.stop_recording();
                } else {
                    state.start_recording(now);
                }
                return Vec::new();
            },
            RawKey::F10 => {
                if state.playing {
                    return state.stop_playback();
                } else {
                    state.stop_recording();
                    return state.playback_latest();
                }
            },
            _ => {},
        }
    }
    if !state.recording {
        return Vec::new();
    }
    let start_at = match state.start {
        Some(start) => start,
        None => {
            return Vec::new();
        },
    };
    match event {
        InputEvent::KeyPress(key) => {
            if let Some(mapped) = convert_key(key) {
                state.key_states.insert(mapped, true);
                push_event(KeyAction::Down(mapped), start_at, now, &mut state.current_events);
            }
        },
        InputEvent::KeyRelease(key) => {
            if let Some(mapped) = convert_key(key) {
                state.key_states.insert(mapped, false);
                push_event(KeyAction::Up(mapped), start_at, now, &mut state.current_events);
            }
        },
        InputEvent::Other => {},
    }
    Vec::new()
}

} // verus!
