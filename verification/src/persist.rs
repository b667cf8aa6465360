//! The persisted form of the sample store, and the way to it and back.

use vstd::prelude::*;
use crate::recorder::{RecordedMode, Sample, SampleView, SerialMode, TimedEvent, views_of};
use crate::tags::{is_recognized, key_tag, key_to_string, lemma_tag_round_trip, string_to_key, tag_key};

verus! {

/// One key transition as it is persisted: the key by its tag.
#[derive(Debug)]
pub struct SerializableTimedEvent {
    pub key: String,
    pub mode: SerialMode,
    pub delta_ms: u64,
}

/// What a persisted key transition holds.
pub struct SerialEventView {
    pub key: Seq<char>,
    pub mode: SerialMode,
    pub delta_ms: u64,
}

impl View for SerializableTimedEvent {
    type V = SerialEventView;

    open spec fn view(&self) -> SerialEventView {
        SerialEventView { key: self.key@, mode: self.mode, delta_ms: self.delta_ms }
    }
}

/// One sample as it is persisted.
#[derive(Debug)]
pub struct SerializableSample {
    pub id: u64,
    pub name: String,
    pub events: Vec<SerializableTimedEvent>,
}

/// What a persisted sample holds.
pub struct SerialSampleView {
    pub id: u64,
    pub name: Seq<char>,
    pub events: Seq<SerialEventView>,
}

/// What each of a sequence of persisted events holds.
pub open spec fn event_views(events: Seq<SerializableTimedEvent>) -> Seq<SerialEventView> {
    events.map_values(|e: SerializableTimedEvent| e@)
}

impl View for SerializableSample {
    type V = SerialSampleView;

    open spec fn view(&self) -> SerialSampleView {
        SerialSampleView { id: self.id, name: self.name@, events: event_views(self.events@) }
    }
}

/// What each of a sequence of persisted samples holds.
pub open spec fn serial_views(samples: Seq<SerializableSample>) -> Seq<SerialSampleView> {
    samples.map_values(|s: SerializableSample| s@)
}

/// The persisted direction of a recorded direction.
pub open spec fn serial_mode(mode: RecordedMode) -> SerialMode {
    match mode {
        RecordedMode::Press => SerialMode::Press,
        RecordedMode::Release => SerialMode::Release,
    }
}

/// The recorded direction of a persisted direction.
pub open spec fn recorded_mode(mode: SerialMode) -> RecordedMode {
    match mode {
        SerialMode::Press => RecordedMode::Press,
        SerialMode::Release => RecordedMode::Release,
    }
}

/// The persisted form of an event.
pub open spec fn encode_event(event: TimedEvent) -> SerialEventView {
    SerialEventView {
        key: key_tag(event.key),
        mode: serial_mode(event.mode),
        delta_ms: event.delta_ms,
    }
}

/// The event that a persisted event stands for, if its tag names a key.
pub open spec fn decode_event(event: SerialEventView) -> Option<TimedEvent> {
    match tag_key(event.key) {
        Some(key) => Some(
            TimedEvent { key, mode: recorded_mode(event.mode), delta_ms: event.delta_ms },
        ),
        None => None,
    }
}

/// The events that persisted events stand for, in their order; one whose
/// tag names no key is left out.
pub open spec fn decode_events(events: Seq<SerialEventView>) -> Seq<TimedEvent>
    decreases events.len(),
{
    if events.len() == 0 {
        Seq::empty()
    } else {
        let rest = decode_events(events.drop_last());
        match decode_event(events.last()) {
            Some(event) => rest.push(event),
            None => rest,
        }
    }
}

/// The persisted form of a sample.
pub open spec fn encode_sample(sample: SampleView) -> SerialSampleView {
    SerialSampleView {
        id: sample.id,
        name: sample.name,
        events: sample.events.map_values(|e: TimedEvent| encode_event(e)),
    }
}

/// The sample that a persisted sample stands for.
pub open spec fn decode_sample(sample: SerialSampleView) -> SampleView {
    SampleView { id: sample.id, name: sample.name, events: decode_events(sample.events) }
}

/// The persisted form of a store.
pub open spec fn encode_store(store: Seq<SampleView>) -> Seq<SerialSampleView> {
    store.map_values(|s: SampleView| encode_sample(s))
}

/// The store that a persisted store stands for.
pub open spec fn decode_store(store: Seq<SerialSampleView>) -> Seq<SampleView> {
    store.map_values(|s: SerialSampleView| decode_sample(s))
}

/// Every event of every sample of the store is on a recognized key.
pub open spec fn all_recognized(store: Seq<SampleView>) -> bool {
    forall|j: int, i: int|
        0 <= j < store.len() && 0 <= i < store[j].events.len() ==> is_recognized(
            (#[trigger] store[j].events[i]).key,
        )
}

/// Events on recognized keys are read back as they were written.
pub proof fn lemma_events_round_trip(events: Seq<TimedEvent>)
    requires
        forall|i: int| 0 <= i < events.len() ==> is_recognized((#[trigger] events[i]).key),
    ensures
        decode_events(events.map_values(|e: TimedEvent| encode_event(e))) == events,
    decreases events.len(),
{
    let encoded = events.map_values(|e: TimedEvent| encode_event(e));
    if events.len() > 0 {
        let rest = events.drop_last();
        assert(encoded.drop_last() =~= rest.map_values(|e: TimedEvent| encode_event(e)));
        lemma_events_round_trip(rest);
        lemma_tag_round_trip(events.last().key);
        assert(encoded.last() == encode_event(events.last()));
        assert(decode_event(encoded.last()) == Some(events.last()));
        assert(rest.push(events.last()) =~= events);
    } else {
        assert(decode_events(encoded) =~= events);
    }
}

/// Saving a store whose events are all on recognized keys and loading what
/// was saved gives the store back: the same ids, names and events, in their
/// order.
pub proof fn lemma_save_then_load(store: Seq<SampleView>)
    requires
        all_recognized(store),
    ensures
        decode_store(encode_store(store)) == store,
{
    let back = decode_store(encode_store(store));
    assert forall|j: int| 0 <= j < store.len() implies back[j] == store[j] by {
        assert forall|i: int| 0 <= i < store[j].events.len() implies is_recognized(
            (#[trigger] store[j].events[i]).key,
        ) by {}
        lemma_events_round_trip(store[j].events);
    }
    assert(back =~= store);
}

/// The persisted form of `events`.
pub fn encode_events(events: &Vec<TimedEvent>) -> (encoded: Vec<SerializableTimedEvent>)
    ensures
        event_views(encoded@) == events@.map_values(|e: TimedEvent| encode_event(e)),
{
    let mut encoded: Vec<SerializableTimedEvent> = Vec::new();
    let mut i: usize = 0;
    while i < events.len()
        invariant
            i <= events.len(),
            encoded@.len() == i,
            forall|j: int| 0 <= j < i ==> (#[trigger] encoded@[j])@ == encode_event(events@[j]),
        decreases events.len() - i,
    {
        let e = events[i];
        let mode = match e.mode {
            RecordedMode::Press => SerialMode::Press,
            RecordedMode::Release => SerialMode::Release,
        };
        encoded.push(SerializableTimedEvent { key: key_to_string(e.key), mode, delta_ms: e.delta_ms });
        i += 1;
    }
    assert(event_views(encoded@) =~= events@.map_values(|e: TimedEvent| encode_event(e)));
    encoded
}

/// The events that `events` stand for; one whose tag names no key is left
/// out.
pub fn decode_all(events: &Vec<SerializableTimedEvent>) -> (decoded: Vec<TimedEvent>)
    ensures
        decoded@ == decode_events(event_views(events@)),
{
    let ghost views = event_views(events@);
    let mut decoded: Vec<TimedEvent> = Vec::new();
    let mut i: usize = 0;
    assert(views.take(0) =~= Seq::<SerialEventView>::empty());
    while i < events.len()
        invariant
            i <= events.len(),
            views == event_views(events@),
            decoded@ == decode_events(views.take(i as int)),
        decreases events.len() - i,
    {
        let e = &events[i];
        proof {
            assert(views.take(i + 1).drop_last() =~= views.take(i as int));
            assert(views.take(i + 1).last() == e@);
        }
        if let Some(key) = string_to_key(e.key.as_str()) {
            let mode = match e.mode {
                SerialMode::Press => RecordedMode::Press,
                SerialMode::Release => RecordedMode::Release,
            };
            decoded.push(TimedEvent { key, mode, delta_ms: e.delta_ms });
        }
        i += 1;
    }
    assert(views.take(events.len() as int) =~= views);
    decoded
}

/// The persisted form of `samples`.
pub fn to_serializable(samples: &Vec<Sample>) -> (serial: Vec<SerializableSample>)
    ensures
        serial_views(serial@) == encode_store(views_of(samples@)),
{
    let mut serial: Vec<SerializableSample> = Vec::new();
    let mut j: usize = 0;
    while j < samples.len()
        invariant
            j <= samples.len(),
            serial@.len() == j,
            forall|h: int| 0 <= h < j ==> (#[trigger] serial@[h])@ == encode_sample(samples@[h]@),
        decreases samples.len() - j,
    {
        let s = &samples[j];
        serial.push(
            SerializableSample { id: s.id, name: s.name.clone(), events: encode_events(&s.events) },
        );
        j += 1;
    }
    assert(serial_views(serial@) =~= encode_store(views_of(samples@)));
    serial
}

/// The samples that persisted samples stand for, in their order. Every
/// sample is kept, with the events whose tags name a key.
pub fn from_serializable(serial: Vec<SerializableSample>) -> (samples: Vec<Sample>)
    ensures
        views_of(samples@) == decode_store(serial_views(serial@)),
{
    let mut samples: Vec<Sample> = Vec::new();
    let mut j: usize = 0;
    while j < serial.len()
        invariant
            j <= serial.len(),
            samples@.len() == j,
            forall|h: int| 0 <= h < j ==> (#[trigger] samples@[h])@ == decode_sample(serial@[h]@),
        decreases serial.len() - j,
    {
        let s = &serial[j];
        samples.push(Sample { id: s.id, name: s.name.clone(), events: decode_all(&s.events) });
        j += 1;
    }
    assert(views_of(samples@) =~= decode_store(serial_views(serial@)));
    samples
}

} // verus!
