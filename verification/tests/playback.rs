use note_recorder::keys::KeyId;
use note_recorder::keytable::KeyTable;
use note_recorder::macro_play::{
    apply_offset, plan_timeline, wait_until, watch_delay, PlayStep, Playback, Planned, WaitStep,
};
use note_recorder::plan::{effective_target, plan_events};
use note_recorder::recorder::{RecordedMode, TimedEvent};
use note_recorder::schema::{KeyAction, TimedEvent as SessionEvent};

fn planned(key: KeyId, mode: RecordedMode, target: u128) -> Planned {
    Planned { key, mode, target }
}

#[test]
fn negative_global_offset_holds_the_target_at_zero() {
    assert_eq!(effective_target(5, -1000, 0), 0);
}

#[test]
fn effective_target_is_the_sum_of_offsets() {
    assert_eq!(effective_target(100, 20, 3), 123);
    assert_eq!(effective_target(100, -20, -3), 77);
    assert_eq!(effective_target(100, -100, 0), 0);
    assert_eq!(effective_target(100, -99, -2), 0);
    assert_eq!(effective_target(0, 0, 0), 0);
    assert_eq!(effective_target(0, i64::MIN, i32::MIN), 0);
    assert_eq!(
        effective_target(u64::MAX, i64::MAX, i32::MAX),
        u64::MAX as u128 + i64::MAX as u128 + i32::MAX as u128
    );
}

#[test]
fn plan_events_keeps_the_order_and_applies_key_offsets() {
    let a = KeyId::Layout('a');
    let mut offsets: KeyTable<i32> = KeyTable::new();
    offsets.insert(a, -7);
    offsets.insert(KeyId::Backspace, 4);
    let events = vec![
        TimedEvent { key: a, mode: RecordedMode::Press, delta_ms: 50 },
        TimedEvent { key: KeyId::Space, mode: RecordedMode::Press, delta_ms: 10 },
        TimedEvent { key: a, mode: RecordedMode::Release, delta_ms: 2 },
        TimedEvent { key: KeyId::Backspace, mode: RecordedMode::Release, delta_ms: 2 },
    ];
    assert_eq!(plan_events(&events, 5, &offsets), vec![
        planned(a, RecordedMode::Press, 48_000_000),
        planned(KeyId::Space, RecordedMode::Press, 15_000_000),
        planned(a, RecordedMode::Release, 0),
        planned(KeyId::Backspace, RecordedMode::Release, 11_000_000),
    ]);
    assert_eq!(plan_events(&Vec::new(), 5, &offsets), Vec::new());
}

#[test]
fn apply_offset_moves_by_milliseconds_and_stops_at_zero() {
    assert_eq!(apply_offset(1_500_000, 2), 3_500_000);
    assert_eq!(apply_offset(1_500_000, -1), 500_000);
    assert_eq!(apply_offset(1_500_000, -2), 0);
    assert_eq!(apply_offset(0, 0), 0);
    assert_eq!(apply_offset(u64::MAX, i64::MAX), u64::MAX as u128 + i64::MAX as u128 * 1_000_000);
    assert_eq!(apply_offset(u64::MAX, i64::MIN), 0);
}

#[test]
fn wait_until_stops_on_cancellation_first() {
    assert_eq!(wait_until(0, 10_000_000, true), WaitStep::Stop);
    assert_eq!(wait_until(10_000_000, 0, true), WaitStep::Stop);
}

#[test]
fn wait_until_sleeps_then_spins_then_is_due() {
    assert_eq!(wait_until(0, 10_000_000, false), WaitStep::Sleep(9_800_000));
    assert_eq!(wait_until(9_499_999, 10_000_000, false), WaitStep::Sleep(300_001));
    assert_eq!(wait_until(9_500_000, 10_000_000, false), WaitStep::Spin);
    assert_eq!(wait_until(9_999_999, 10_000_000, false), WaitStep::Spin);
    assert_eq!(wait_until(10_000_000, 10_000_000, false), WaitStep::Due);
    assert_eq!(wait_until(10_000_001, 10_000_000, false), WaitStep::Due);
    assert_eq!(wait_until(0, 0, false), WaitStep::Due);
}

#[test]
fn plan_timeline_maps_actions_to_directions() {
    let a = KeyId::Layout('a');
    let events = vec![
        SessionEvent { at: 3_000_000, action: KeyAction::Down(a) },
        SessionEvent { at: 1_000_000, action: KeyAction::Up(a) },
    ];
    assert_eq!(plan_timeline(&events, -2), vec![
        planned(a, RecordedMode::Press, 1_000_000),
        planned(a, RecordedMode::Release, 0),
    ]);
}

#[test]
fn watch_delay_is_the_latest_target_and_the_grace_period() {
    let a = KeyId::Layout('a');
    let plan = vec![
        planned(a, RecordedMode::Press, 7_000_000),
        planned(a, RecordedMode::Release, 2_000_000),
    ];
    assert_eq!(watch_delay(&plan), 307_000_000);
    assert_eq!(watch_delay(&Vec::new()), 300_000_000);
    assert_eq!(watch_delay(&vec![planned(a, RecordedMode::Press, u128::MAX - 5)]), u128::MAX);
}

#[test]
fn playback_of_an_empty_plan_delivers_nothing() {
    let mut playback = Playback::new(Vec::new());
    assert_eq!(playback.step(0, false), PlayStep::Finished);
    assert_eq!(playback.delivered(), 0);
    assert!(!playback.is_halted());
}

#[test]
fn playback_delivers_in_the_order_given() {
    let a = KeyId::Layout('a');
    let first = planned(a, RecordedMode::Press, 5_000_000);
    let second = planned(a, RecordedMode::Release, 1_000_000);
    let mut playback = Playback::new(vec![first, second]);
    assert_eq!(playback.step(0, false), PlayStep::Sleep(4_800_000));
    assert_eq!(playback.step(4_800_000, false), PlayStep::Spin);
    assert_eq!(playback.delivered(), 0);
    assert_eq!(playback.step(5_000_000, false), PlayStep::Deliver(first));
    assert_eq!(playback.delivered(), 1);
    assert_eq!(playback.step(5_000_001, false), PlayStep::Deliver(second));
    assert_eq!(playback.delivered(), 2);
    assert_eq!(playback.step(5_000_002, false), PlayStep::Finished);
    assert_eq!(playback.step(5_000_003, false), PlayStep::Finished);
}

#[test]
fn cancellation_mid_wait_halts_before_the_next_event() {
    let a = KeyId::Layout('a');
    let down = planned(a, RecordedMode::Press, 0);
    let up = planned(a, RecordedMode::Release, 50_000_000);
    let mut playback = Playback::new(vec![down, up]);
    assert_eq!(playback.step(0, false), PlayStep::Deliver(down));
    assert_eq!(playback.step(1_000, false), PlayStep::Sleep(49_799_000));
    assert_eq!(playback.step(20_000_000, true), PlayStep::Stopped);
    assert!(playback.is_halted());
    assert_eq!(playback.delivered(), 1);
    // the release is due by now, and the flag reads clear again: nothing is delivered
    assert_eq!(playback.step(60_000_000, false), PlayStep::Stopped);
    assert_eq!(playback.delivered(), 1);
}

#[test]
fn cancellation_wins_over_a_due_event() {
    let a = KeyId::Layout('a');
    let mut playback = Playback::new(vec![planned(a, RecordedMode::Press, 0)]);
    assert_eq!(playback.step(10, true), PlayStep::Stopped);
    assert_eq!(playback.delivered(), 0);
}
