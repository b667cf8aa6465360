use note_recorder::keys::{KeyId, RawKey};
use note_recorder::keytable::KeyTable;
use note_recorder::macro_play::Planned;
use note_recorder::persist::{
    decode_all, encode_events, from_serializable, to_serializable, SerializableSample,
    SerializableTimedEvent,
};
use note_recorder::recorder::{
    clone_samples, find_sample, max_id, Loaded, MacroRecorder, PollAction, RecordedMode, Sample,
    SerialMode, TimedEvent,
};
use note_recorder::session::KeyUpdate;

const MS: u64 = 1_000_000;

fn press(key: KeyId, delta_ms: u64) -> TimedEvent {
    TimedEvent { key, mode: RecordedMode::Press, delta_ms }
}

fn release(key: KeyId, delta_ms: u64) -> TimedEvent {
    TimedEvent { key, mode: RecordedMode::Release, delta_ms }
}

fn update(mode: RecordedMode, key: RawKey, at: u64) -> KeyUpdate {
    KeyUpdate { mode, key, at }
}

fn serial_event(key: &str, mode: SerialMode, delta_ms: u64) -> SerializableTimedEvent {
    SerializableTimedEvent { key: key.to_string(), mode, delta_ms }
}

fn parts(samples: &Vec<Sample>) -> Vec<(u64, String, Vec<TimedEvent>)> {
    samples.iter().map(|s| (s.id, s.name.clone(), s.events.clone())).collect()
}

fn serial_parts(samples: &Vec<SerializableSample>) -> Vec<(u64, String, Vec<(String, SerialMode, u64)>)> {
    samples
        .iter()
        .map(|s| {
            (
                s.id,
                s.name.clone(),
                s.events.iter().map(|e| (e.key.clone(), e.mode, e.delta_ms)).collect(),
            )
        })
        .collect()
}

fn recorded(rec: &mut MacroRecorder, start: u64, edges: &[(KeyId, RecordedMode, u64)]) {
    rec.start_recording(start);
    for (key, mode, at) in edges {
        rec.on_edge(*key, *mode, *at);
    }
    rec.finish_recording();
}

#[test]
fn default_recorder_is_idle_with_mean_mode() {
    let rec = MacroRecorder::default();
    assert!(!rec.is_recording);
    assert!(rec.live_events.is_empty());
    assert!(rec.samples.is_empty());
    assert_eq!(rec.hotkey_toggle, RawKey::F9);
    assert_eq!(rec.hotkey_playback, RawKey::F10);
    assert_eq!(rec.outlier_k_milli, 2000);
    assert!(!rec.use_median);
    assert_eq!(rec.playback_offset_ms, 0);
    assert!(rec.autosave);
    assert_eq!(rec.sample_counter, 0);
    assert_eq!(rec.recording_start, None);
    assert!(rec.allowed_keys_snapshot().is_empty());
    assert!(rec.pressed_keys_snapshot().is_empty());
    assert!(rec.key_offsets_snapshot().is_empty());
}

#[test]
fn edges_outside_a_session_are_dropped() {
    let mut rec = MacroRecorder::default();
    rec.on_edge(KeyId::Space, RecordedMode::Press, 5 * MS);
    assert!(rec.live_events.is_empty());
    assert!(rec.pressed_keys_snapshot().is_empty());
}

#[test]
fn offsets_are_whole_milliseconds_since_the_session_began() {
    let a = KeyId::Layout('a');
    let mut rec = MacroRecorder::default();
    rec.start_recording(100 * MS);
    rec.on_edge(a, RecordedMode::Press, 100 * MS);
    rec.on_edge(a, RecordedMode::Release, 100 * MS + 999_999);
    rec.on_edge(a, RecordedMode::Press, 101 * MS);
    rec.on_edge(a, RecordedMode::Release, 350 * MS + 1);
    assert_eq!(rec.live_events, vec![press(a, 0), release(a, 0), press(a, 1), release(a, 250)]);
}

#[test]
fn an_instant_before_the_start_counts_as_the_start() {
    let a = KeyId::Layout('a');
    let mut rec = MacroRecorder::default();
    rec.start_recording(100 * MS);
    rec.on_edge(a, RecordedMode::Press, 40 * MS);
    assert_eq!(rec.live_events, vec![press(a, 0)]);
}

#[test]
fn offsets_do_not_decrease_for_instants_in_order() {
    let a = KeyId::Layout('a');
    let mut rec = MacroRecorder::default();
    rec.start_recording(7);
    for at in [7u64, 8, 1_000_006, 1_000_007, 5 * MS, 5 * MS, 9 * MS + 3] {
        rec.on_edge(a, RecordedMode::Press, at);
    }
    let offsets: Vec<u64> = rec.live_events.iter().map(|e| e.delta_ms).collect();
    assert_eq!(offsets, vec![0, 0, 0, 1, 4, 4, 8]);
}

#[test]
fn allow_list_drops_other_keys() {
    let a = KeyId::Layout('a');
    let s = KeyId::Layout('s');
    let mut rec = MacroRecorder::default();
    rec.set_allowed_keys(vec![a]);
    assert_eq!(rec.allowed_keys_snapshot(), vec![a]);
    rec.start_recording(0);
    rec.on_edge(s, RecordedMode::Press, MS);
    rec.on_edge(a, RecordedMode::Press, 2 * MS);
    assert_eq!(rec.live_events, vec![press(a, 2)]);
    assert_eq!(rec.pressed_keys_snapshot(), vec![a]);
    rec.set_allowed_keys(Vec::new());
    rec.on_edge(s, RecordedMode::Press, 3 * MS);
    assert_eq!(rec.live_events, vec![press(a, 2), press(s, 3)]);
}

#[test]
fn held_keys_follow_presses_and_releases() {
    let a = KeyId::Layout('a');
    let s = KeyId::Layout('s');
    let mut rec = MacroRecorder::default();
    rec.start_recording(0);
    rec.on_edge(a, RecordedMode::Press, 1);
    rec.on_edge(s, RecordedMode::Press, 2);
    rec.on_edge(a, RecordedMode::Press, 3);
    assert_eq!(rec.pressed_keys_snapshot(), vec![a, s]);
    rec.on_edge(a, RecordedMode::Release, 4);
    assert_eq!(rec.pressed_keys_snapshot(), vec![s]);
    rec.on_edge(a, RecordedMode::Release, 5);
    assert_eq!(rec.pressed_keys_snapshot(), vec![s]);
    rec.clear();
    assert!(rec.pressed_keys_snapshot().is_empty());
    assert!(rec.live_events.is_empty());
    assert!(rec.is_recording);
}

#[test]
fn finishing_stores_a_sample_under_the_next_id() {
    let a = KeyId::Layout('a');
    let mut rec = MacroRecorder::default();
    rec.start_recording(0);
    rec.on_edge(a, RecordedMode::Press, 3 * MS);
    assert!(rec.finish_recording());
    assert!(!rec.is_recording);
    assert!(rec.live_events.is_empty());
    assert_eq!(rec.recording_start, None);
    assert_eq!(parts(&rec.samples), vec![(1, "sample-1".to_string(), vec![press(a, 3)])]);
    recorded(&mut rec, 0, &[(a, RecordedMode::Release, 9 * MS)]);
    assert_eq!(parts(&rec.samples), vec![
        (1, "sample-1".to_string(), vec![press(a, 3)]),
        (2, "sample-2".to_string(), vec![release(a, 9)]),
    ]);
    assert_eq!(rec.sample_counter, 2);
}

#[test]
fn finishing_an_empty_session_stores_nothing() {
    let mut rec = MacroRecorder::default();
    rec.start_recording(0);
    assert!(!rec.finish_recording());
    assert!(rec.samples.is_empty());
    assert_eq!(rec.sample_counter, 0);
    assert!(!rec.is_recording);
}

#[test]
fn finishing_without_a_session_stores_nothing() {
    let mut rec = MacroRecorder::default();
    rec.live_events.push(press(KeyId::Space, 1));
    assert!(!rec.finish_recording());
    assert!(rec.samples.is_empty());
    assert!(rec.live_events.is_empty());
}

#[test]
fn finishing_without_autosave_asks_for_no_save() {
    let mut rec = MacroRecorder::default();
    rec.autosave = false;
    rec.start_recording(0);
    rec.on_edge(KeyId::Space, RecordedMode::Press, 1);
    assert!(!rec.finish_recording());
    assert_eq!(rec.samples.len(), 1);
}

#[test]
fn starting_clears_the_buffer() {
    let mut rec = MacroRecorder::default();
    rec.start_recording(0);
    rec.on_edge(KeyId::Space, RecordedMode::Press, 1);
    rec.start_recording(50);
    assert!(rec.live_events.is_empty());
    assert!(rec.is_recording);
    assert_eq!(rec.recording_start, Some(50));
}

#[test]
fn toggle_hotkey_opens_and_closes_a_session() {
    let mut rec = MacroRecorder::default();
    assert!(matches!(rec.poll_events(update(RecordedMode::Press, RawKey::F9, 1), 10 * MS), PollAction::Nothing));
    assert!(rec.is_recording);
    assert_eq!(rec.recording_start, Some(10 * MS));
    assert!(matches!(rec.poll_events(update(RecordedMode::Release, RawKey::F9, 2), 11 * MS), PollAction::Nothing));
    assert!(rec.is_recording);
    assert!(matches!(rec.poll_events(update(RecordedMode::Press, RawKey::KeyA, 12 * MS), 0), PollAction::Nothing));
    assert!(matches!(rec.poll_events(update(RecordedMode::Press, RawKey::KeyB, 13 * MS), 0), PollAction::Nothing));
    assert!(matches!(rec.poll_events(update(RecordedMode::Release, RawKey::KeyA, 15 * MS), 0), PollAction::Nothing));
    assert_eq!(rec.live_events, vec![press(KeyId::Layout('a'), 2), release(KeyId::Layout('a'), 5)]);
    assert!(matches!(rec.poll_events(update(RecordedMode::Press, RawKey::F9, 3), 20 * MS), PollAction::Save));
    assert!(!rec.is_recording);
    assert_eq!(rec.samples.len(), 1);
    assert_eq!(rec.samples[0].events, vec![press(KeyId::Layout('a'), 2), release(KeyId::Layout('a'), 5)]);
}

#[test]
fn toggle_hotkey_closing_an_empty_session_saves_nothing() {
    let mut rec = MacroRecorder::default();
    rec.poll_events(update(RecordedMode::Press, RawKey::F9, 1), 0);
    assert!(matches!(rec.poll_events(update(RecordedMode::Press, RawKey::F9, 2), 0), PollAction::Nothing));
    assert!(rec.samples.is_empty());
}

#[test]
fn replay_hotkey_plans_the_fused_timeline() {
    let a = KeyId::Layout('a');
    let mut rec = MacroRecorder::default();
    assert!(matches!(rec.poll_events(update(RecordedMode::Press, RawKey::F10, 1), 0), PollAction::Nothing));
    recorded(&mut rec, 0, &[(a, RecordedMode::Press, 10 * MS), (a, RecordedMode::Release, 30 * MS)]);
    recorded(&mut rec, 0, &[(a, RecordedMode::Press, 20 * MS), (a, RecordedMode::Release, 50 * MS)]);
    rec.playback_offset_ms = 5;
    rec.set_key_offset(a, -1);
    match rec.poll_events(update(RecordedMode::Press, RawKey::F10, 1), 0) {
        PollAction::Play(plan) => assert_eq!(plan, vec![
            Planned { key: a, mode: RecordedMode::Press, target: 19_000_000 },
            Planned { key: a, mode: RecordedMode::Release, target: 44_000_000 },
        ]),
        other => panic!("no plan: {:?}", other),
    }
    assert!(matches!(rec.poll_events(update(RecordedMode::Release, RawKey::F10, 1), 0), PollAction::Nothing));
}

#[test]
fn replay_plans_offsets_at_the_top_of_the_range() {
    let a = KeyId::Layout('a');
    let mut rec = MacroRecorder::default();
    rec.samples.push(Sample { id: 1, name: "big".to_string(), events: vec![press(a, 0), release(a, u64::MAX)] });
    match rec.poll_events(update(RecordedMode::Press, RawKey::F10, 1), 0) {
        PollAction::Play(plan) => assert_eq!(plan, vec![
            Planned { key: a, mode: RecordedMode::Press, target: 0 },
            Planned { key: a, mode: RecordedMode::Release, target: u64::MAX as u128 * 1_000_000 },
        ]),
        other => panic!("no plan: {:?}", other),
    }
}

#[test]
fn hotkeys_can_be_changed() {
    let mut rec = MacroRecorder::default();
    rec.set_hotkeys(RawKey::F1, RawKey::F2);
    rec.poll_events(update(RecordedMode::Press, RawKey::F9, 1), 0);
    assert!(!rec.is_recording);
    rec.poll_events(update(RecordedMode::Press, RawKey::F1, 1), 0);
    assert!(rec.is_recording);
}

#[test]
fn timing_map_fuses_the_store() {
    let a = KeyId::Layout('a');
    let mut rec = MacroRecorder::default();
    recorded(&mut rec, 0, &[(a, RecordedMode::Press, 10 * MS)]);
    recorded(&mut rec, 0, &[(a, RecordedMode::Press, 12 * MS)]);
    rec.start_recording(0);
    rec.finish_recording();
    assert_eq!(rec.timing_map(), vec![press(a, 11)]);
    rec.use_median = true;
    assert_eq!(rec.timing_map(), vec![press(a, 12)]);
}

#[test]
fn play_sample_plans_the_sample_with_that_id() {
    let a = KeyId::Layout('a');
    let mut rec = MacroRecorder::default();
    recorded(&mut rec, 0, &[(a, RecordedMode::Press, 10 * MS)]);
    recorded(&mut rec, 0, &[(a, RecordedMode::Press, 12 * MS)]);
    rec.playback_offset_ms = -11;
    assert_eq!(rec.play_sample(2), Some(vec![Planned { key: a, mode: RecordedMode::Press, target: 1_000_000 }]));
    assert_eq!(rec.play_sample(1), Some(vec![Planned { key: a, mode: RecordedMode::Press, target: 0 }]));
    assert_eq!(rec.play_sample(3), None);
    assert_eq!(
        rec.play_timing_map(vec![release(a, 11)]),
        vec![Planned { key: a, mode: RecordedMode::Release, target: 0 }]
    );
    let table: KeyTable<i32> = KeyTable::new();
    assert_eq!(
        MacroRecorder::play_events(vec![release(a, 11)], 1, &table),
        vec![Planned { key: a, mode: RecordedMode::Release, target: 12_000_000 }]
    );
}

#[test]
fn key_offsets_snapshot_leaves_out_unrecognized_keys() {
    let a = KeyId::Layout('a');
    let mut rec = MacroRecorder::default();
    rec.set_key_offset(a, 5);
    rec.set_key_offset(KeyId::Backspace, 9);
    rec.set_key_offset(KeyId::Space, -2);
    rec.set_key_offset(a, 6);
    assert_eq!(rec.key_offsets_snapshot(), vec![(a, 6), (KeyId::Space, -2)]);
}

#[test]
fn delete_removes_the_sample_with_that_id() {
    let a = KeyId::Layout('a');
    let mut rec = MacroRecorder::default();
    for at in [1u64, 2, 3] {
        recorded(&mut rec, 0, &[(a, RecordedMode::Press, at * MS)]);
    }
    rec.delete_sample(2);
    let ids: Vec<u64> = rec.samples.iter().map(|s| s.id).collect();
    assert_eq!(ids, vec![1, 3]);
    rec.delete_sample(7);
    assert_eq!(rec.samples.len(), 2);
    recorded(&mut rec, 0, &[(a, RecordedMode::Press, MS)]);
    let ids: Vec<u64> = rec.samples.iter().map(|s| s.id).collect();
    assert_eq!(ids, vec![1, 3, 4]);
}

#[test]
fn rename_changes_only_the_name() {
    let a = KeyId::Layout('a');
    let mut rec = MacroRecorder::default();
    recorded(&mut rec, 0, &[(a, RecordedMode::Press, MS)]);
    recorded(&mut rec, 0, &[(a, RecordedMode::Press, 2 * MS)]);
    assert!(rec.rename_sample(2, "intro".to_string()));
    assert_eq!(parts(&rec.samples), vec![
        (1, "sample-1".to_string(), vec![press(a, 1)]),
        (2, "intro".to_string(), vec![press(a, 2)]),
    ]);
    assert!(!rec.rename_sample(5, "none".to_string()));
    rec.autosave = false;
    assert!(!rec.rename_sample(1, "first".to_string()));
    assert_eq!(rec.samples[0].name, "first");
}

#[test]
fn reorder_swaps_neighbours() {
    let a = KeyId::Layout('a');
    let mut rec = MacroRecorder::default();
    for at in [1u64, 2, 3] {
        recorded(&mut rec, 0, &[(a, RecordedMode::Press, at * MS)]);
    }
    rec.reorder(0);
    let ids: Vec<u64> = rec.samples.iter().map(|s| s.id).collect();
    assert_eq!(ids, vec![2, 1, 3]);
    rec.reorder(2);
    rec.reorder(usize::MAX);
    let ids: Vec<u64> = rec.samples.iter().map(|s| s.id).collect();
    assert_eq!(ids, vec![2, 1, 3]);
    rec.reorder(1);
    let ids: Vec<u64> = rec.samples.iter().map(|s| s.id).collect();
    assert_eq!(ids, vec![2, 3, 1]);
}

#[test]
fn snapshot_copies_the_store() {
    let a = KeyId::Layout('a');
    let mut rec = MacroRecorder::default();
    recorded(&mut rec, 0, &[(a, RecordedMode::Press, MS)]);
    let copy = rec.samples_snapshot();
    rec.delete_sample(1);
    assert_eq!(parts(&copy), vec![(1, "sample-1".to_string(), vec![press(a, 1)])]);
    assert_eq!(parts(&clone_samples(&copy)), parts(&copy));
}

#[test]
fn persisted_form_names_keys_by_tag() {
    let a = KeyId::Layout('a');
    let mut rec = MacroRecorder::default();
    recorded(&mut rec, 0, &[(a, RecordedMode::Press, MS), (KeyId::Space, RecordedMode::Release, 4 * MS)]);
    assert_eq!(serial_parts(&rec.to_serializable()), vec![(
        1,
        "sample-1".to_string(),
        vec![
            ("char:a".to_string(), SerialMode::Press, 1),
            ("Space".to_string(), SerialMode::Release, 4),
        ],
    )]);
    assert_eq!(serial_parts(&to_serializable(&rec.samples)), serial_parts(&rec.to_serializable()));
}

#[test]
fn save_then_load_gives_the_store_back() {
    let keys = [
        KeyId::Layout('a'),
        KeyId::Layout('é'),
        KeyId::Space,
        KeyId::Return,
        KeyId::Tab,
        KeyId::Escape,
        KeyId::UpArrow,
        KeyId::DownArrow,
        KeyId::LeftArrow,
        KeyId::RightArrow,
        KeyId::Shift,
        KeyId::Control,
        KeyId::Alt,
        KeyId::Meta,
    ];
    let mut events = Vec::new();
    for (i, key) in keys.iter().enumerate() {
        events.push(press(*key, 10 * i as u64));
        events.push(release(*key, 10 * i as u64 + 5));
    }
    let store = vec![
        Sample { id: 4, name: "one".to_string(), events: events.clone() },
        Sample { id: 2, name: String::new(), events: Vec::new() },
        Sample { id: 9, name: "three".to_string(), events: vec![press(KeyId::Space, u64::MAX)] },
    ];
    let back = from_serializable(to_serializable(&store));
    assert_eq!(parts(&back), parts(&store));
}

#[test]
fn loading_drops_events_with_unknown_tags_only() {
    let loaded = vec![SerializableSample {
        id: 3,
        name: "mixed".to_string(),
        events: vec![
            serial_event("char:a", SerialMode::Press, 1),
            serial_event("F13", SerialMode::Press, 2),
            serial_event("other:Backspace", SerialMode::Release, 3),
            serial_event("Meta", SerialMode::Release, 4),
        ],
    }, SerializableSample {
        id: 1,
        name: "gone".to_string(),
        events: vec![serial_event("nothing", SerialMode::Press, 1)],
    }];
    let samples = from_serializable(loaded);
    assert_eq!(parts(&samples), vec![
        (3, "mixed".to_string(), vec![press(KeyId::Layout('a'), 1), release(KeyId::Meta, 4)]),
        (1, "gone".to_string(), Vec::new()),
    ]);
}

#[test]
fn backspace_is_lost_on_the_way_through_the_file() {
    let events = vec![press(KeyId::Backspace, 1), press(KeyId::Space, 2)];
    assert_eq!(decode_all(&encode_events(&events)), vec![press(KeyId::Space, 2)]);
}

#[test]
fn load_replaces_the_store_and_restarts_the_counter() {
    let a = KeyId::Layout('a');
    let mut rec = MacroRecorder::default();
    recorded(&mut rec, 0, &[(a, RecordedMode::Press, MS)]);
    rec.load_from_disk(Loaded::Parsed(vec![
        SerializableSample { id: 7, name: "x".to_string(), events: vec![serial_event("char:s", SerialMode::Press, 5)] },
        SerializableSample { id: 3, name: "y".to_string(), events: Vec::new() },
    ]));
    assert_eq!(parts(&rec.samples), vec![
        (7, "x".to_string(), vec![press(KeyId::Layout('s'), 5)]),
        (3, "y".to_string(), Vec::new()),
    ]);
    assert_eq!(rec.sample_counter, 7);
    assert_eq!(max_id(&rec.samples), 7);
    recorded(&mut rec, 0, &[(a, RecordedMode::Press, MS)]);
    assert_eq!(rec.samples[2].id, 8);
    assert_eq!(rec.samples[2].name, "sample-8");
}

#[test]
fn load_of_nothing_parsed_empties_the_store() {
    let a = KeyId::Layout('a');
    let mut rec = MacroRecorder::default();
    recorded(&mut rec, 0, &[(a, RecordedMode::Press, MS)]);
    rec.load_from_disk(Loaded::Parsed(Vec::new()));
    assert!(rec.samples.is_empty());
    assert_eq!(rec.sample_counter, 0);
    recorded(&mut rec, 0, &[(a, RecordedMode::Press, MS)]);
    rec.load_from_disk(Loaded::Malformed);
    assert!(rec.samples.is_empty());
    assert_eq!(rec.sample_counter, 0);
}

#[test]
fn missing_or_blank_file_leaves_the_store() {
    let a = KeyId::Layout('a');
    let mut rec = MacroRecorder::default();
    recorded(&mut rec, 0, &[(a, RecordedMode::Press, MS)]);
    rec.load_from_disk(Loaded::Missing);
    rec.load_from_disk(Loaded::Blank);
    assert_eq!(rec.samples.len(), 1);
    assert_eq!(rec.sample_counter, 1);
}

#[test]
fn find_sample_gives_the_first_with_that_id() {
    let samples = vec![
        Sample { id: 2, name: "a".to_string(), events: Vec::new() },
        Sample { id: 5, name: "b".to_string(), events: Vec::new() },
        Sample { id: 5, name: "c".to_string(), events: Vec::new() },
    ];
    assert_eq!(find_sample(&samples, 5), Some(1));
    assert_eq!(find_sample(&samples, 2), Some(0));
    assert_eq!(find_sample(&samples, 1), None);
    assert_eq!(max_id(&samples), 5);
    assert_eq!(max_id(&Vec::new()), 0);
}

#[test]
fn key_table_keeps_one_value_for_each_key() {
    let mut table: KeyTable<i32> = KeyTable::new();
    assert_eq!(table.get(KeyId::Space), None);
    table.insert(KeyId::Space, 1);
    table.insert(KeyId::Tab, 2);
    table.insert(KeyId::Space, 3);
    assert_eq!(table.get(KeyId::Space), Some(3));
    assert_eq!(table.to_vec(), vec![(KeyId::Space, 3), (KeyId::Tab, 2)]);
    table.remove(KeyId::Space);
    table.remove(KeyId::Alt);
    assert_eq!(table.to_vec(), vec![(KeyId::Tab, 2)]);
    table.clear();
    assert_eq!(table.to_vec(), Vec::new());
}
