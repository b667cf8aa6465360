//! The playback scheduler: when each event of a timeline is due, and what a
//! playback worker does next.
//!
//! The worker itself sleeps, spins and delivers; every decision it takes is
//! one call of `Playback::step`.

use vstd::prelude::*;
use crate::keys::KeyId;
use crate::recorder::RecordedMode;
use crate::schema::TimedEvent;

verus! {

/// Nanoseconds in a millisecond.
pub const NANOS_PER_MILLI: u64 = 1_000_000;

/// A worker sleeps while more than this many nanoseconds remain, and spins
/// from there on.
pub const SPIN_WINDOW_NANOS: u64 = 500_000;

/// A sleeping worker wakes this many nanoseconds before the event is due.
pub const GUARD_NANOS: u64 = 200_000;

/// The watcher waits this many nanoseconds beyond the expected end of a
/// playback before it joins the worker.
pub const GRACE_NANOS: u64 = 300_000_000;

/// An instant `at`, in nanoseconds, moved by `offset_ms` milliseconds and
/// held at zero where that would fall before the start of the playback.
pub open spec fn shifted(at: u64, offset_ms: i64) -> int {
    if at + offset_ms * NANOS_PER_MILLI < 0 {
        0
    } else {
        at + offset_ms * NANOS_PER_MILLI
    }
}

/// The instant at which an event recorded at `at` is due when the playback
/// is moved by `offset_ms`.
pub fn apply_offset(at: u64, offset_ms: i64) -> (scheduled: u128)
    ensures
        scheduled == shifted(at, offset_ms),
{
    let moved: i128 = at as i128 + offset_ms as i128 * 1_000_000;
    if moved < 0 {
        0
    } else {
        moved as u128
    }
}

/// What a worker that waits for an event does next.
#[derive(Clone, Copy, Debug, PartialEq, Eq, Structural)]
pub enum WaitStep {
    /// Cancellation was requested: wait no longer.
    Stop,
    /// The event is due.
    Due,
    /// Sleep for this many nanoseconds, then look again.
    Sleep(u128),
    /// Look again at once.
    Spin,
}

/// The next move of a worker that waits for the instant `scheduled` when
/// `elapsed` nanoseconds of the playback have passed.
pub open spec fn wait_step(elapsed: u128, scheduled: u128, stop: bool) -> WaitStep {
    if stop {
        WaitStep::Stop
    } else if elapsed >= scheduled {
        WaitStep::Due
    } else if scheduled - elapsed > SPIN_WINDOW_NANOS {
        WaitStep::Sleep((scheduled - elapsed - GUARD_NANOS) as u128)
    } else {
        WaitStep::Spin
    }
}

/// Decides one round of the hybrid wait: stop on cancellation, finish when
/// the instant is reached, sleep through the bulk of a long wait and spin
/// through its end.
pub fn wait_until(elapsed: u128, scheduled: u128, stop: bool) -> (step: WaitStep)
    ensures
        step == wait_step(elapsed, scheduled, stop),
{
    if stop {
        return WaitStep::Stop;
    }
    if elapsed >= scheduled {
        return WaitStep::Due;
    }
    let remaining: u128 = scheduled - elapsed;
    if remaining > SPIN_WINDOW_NANOS as u128 {
        WaitStep::Sleep(remaining - GUARD_NANOS as u128)
    } else {
        WaitStep::Spin
    }
}

/// One event of a playback: the key, the direction, and the instant of the
/// playback at which it is due, in nanoseconds.
#[derive(Clone, Copy, Debug, PartialEq, Eq, Structural)]
pub struct Planned {
    pub key: KeyId,
    pub mode: RecordedMode,
    pub target: u128,
}

/// The planned form of a session event under a playback offset.
pub open spec fn planned_of(event: TimedEvent, offset_ms: i64) -> Planned {
    Planned {
        key: event.action.key_of(),
        mode: event.action.mode_of(),
        target: shifted(event.at, offset_ms) as u128,
    }
}

/// The plan of a session timeline under a playback offset: its events in
/// their own order.
pub open spec fn session_plan(events: Seq<TimedEvent>, offset_ms: i64) -> Seq<Planned> {
    events.map_values(|e: TimedEvent| planned_of(e, offset_ms))
}

/// The plan of a timeline: its events in their own order, each due at its
/// instant moved by `offset_ms`.
pub fn plan_timeline(events: &Vec<TimedEvent>, offset_ms: i64) -> (plan: Vec<Planned>)
    ensures
        plan@ == session_plan(events@, offset_ms),
{
    let mut plan: Vec<Planned> = Vec::new();
    let mut i: usize = 0;
    while i < events.len()
        invariant
            i <= events.len(),
            plan@.len() == i,
            forall|j: int| 0 <= j < i ==> plan@[j] == planned_of(events@[j], offset_ms),
        decreases events.len() - i,
    {
        let e = events[i];
        plan.push(Planned { key: e.action.key(), mode: e.action.mode(), target: apply_offset(e.at, offset_ms) });
        i += 1;
    }
    assert(plan@ =~= session_plan(events@, offset_ms));
    plan
}

/// The latest instant at which any of the first `n` events of a plan is due.
pub open spec fn latest_upto(plan: Seq<Planned>, n: int) -> u128
    decreases n,
{
    if n <= 0 {
        0
    } else {
        let rest = latest_upto(plan, n - 1);
        if plan[n - 1].target > rest {
            plan[n - 1].target
        } else {
            rest
        }
    }
}

/// The expected duration of a playback: the latest instant at which any of
/// its events is due, 0 for an empty plan.
pub open spec fn expected_duration(plan: Seq<Planned>) -> u128 {
    latest_upto(plan, plan.len() as int)
}

/// How long the watcher of a playback waits before it joins the worker:
/// the expected duration and the grace period, or the longest wait that can
/// be held where that is more.
pub open spec fn watch_after(plan: Seq<Planned>) -> u128 {
    if expected_duration(plan) + GRACE_NANOS > u128::MAX {
        u128::MAX
    } else {
        (expected_duration(plan) + GRACE_NANOS) as u128
    }
}

/// How long the watcher of a playback of `plan` waits.
pub fn watch_delay(plan: &Vec<Planned>) -> (delay: u128)
    ensures
        delay == watch_after(plan@),
{
    let mut latest: u128 = 0;
    let mut i: usize = 0;
    while i < plan.len()
        invariant
            i <= plan.len(),
            latest == latest_upto(plan@, i as int),
        decreases plan.len() - i,
    {
        if plan[i].target > latest {
            latest = plan[i].target;
        }
        i += 1;
    }
    latest.saturating_add(GRACE_NANOS as u128)
}

/// What a playback worker does next.
#[derive(Clone, Copy, Debug, PartialEq, Eq, Structural)]
pub enum PlayStep {
    /// Every event was delivered: the worker ends.
    Finished,
    /// Cancellation was requested: the worker ends and delivers nothing more.
    Stopped,
    /// Sleep for this many nanoseconds, then ask again.
    Sleep(u128),
    /// Ask again at once.
    Spin,
    /// Deliver this event to the injector, then ask again.
    Deliver(Planned),
}

/// The state of one playback: its plan, how many events of it were handed
/// out for delivery, and whether it was cancelled.
pub struct Playback {
    plan: Vec<Planned>,
    next: usize,
    halted: bool,
}

/// What a playback is, as contracts speak of it.
pub struct PlaybackView {
    pub plan: Seq<Planned>,
    pub delivered: nat,
    pub halted: bool,
}

impl PlaybackView {
    /// The move that the worker makes when `elapsed` nanoseconds of the
    /// playback have passed and the cancellation flag reads `stop`.
    /// Cancellation comes first: whatever is due, a cancelled playback
    /// delivers nothing.
    pub open spec fn move_at(self, elapsed: u128, stop: bool) -> PlayStep {
        if self.halted || stop {
            PlayStep::Stopped
        } else if self.delivered >= self.plan.len() {
            PlayStep::Finished
        } else {
            match wait_step(elapsed, self.plan[self.delivered as int].target, false) {
                WaitStep::Sleep(nanos) => PlayStep::Sleep(nanos),
                WaitStep::Spin => PlayStep::Spin,
                _ => PlayStep::Deliver(self.plan[self.delivered as int]),
            }
        }
    }

    /// The playback after that move.
    pub open spec fn after(self, elapsed: u128, stop: bool) -> PlaybackView {
        match self.move_at(elapsed, stop) {
            PlayStep::Stopped => PlaybackView { halted: true, ..self },
            PlayStep::Deliver(_) => PlaybackView { delivered: self.delivered + 1, ..self },
            _ => self,
        }
    }

    /// The playback after one move for each reading of clock and flag in
    /// `readings`, in their order.
    pub open spec fn after_all(self, readings: Seq<(u128, bool)>) -> PlaybackView
        decreases readings.len(),
    {
        if readings.len() == 0 {
            self
        } else {
            self.after_all(readings.drop_last()).after(readings.last().0, readings.last().1)
        }
    }
}

impl Playback {
    #[verifier::type_invariant]
    spec fn well_formed(self) -> bool {
        self.next <= self.plan@.len()
    }

    pub closed spec fn view(&self) -> PlaybackView {
        PlaybackView { plan: self.plan@, delivered: self.next as nat, halted: self.halted }
    }

    /// A playback of `plan` of which nothing was delivered yet.
    pub fn new(plan: Vec<Planned>) -> (playback: Playback)
        ensures
            playback@ == (PlaybackView { plan: plan@, delivered: 0, halted: false }),
    {
        Playback { plan, next: 0, halted: false }
    }

    /// The number of events handed out for delivery so far.
    pub fn delivered(&self) -> (n: usize)
        ensures
            n == self@.delivered,
            n <= self@.plan.len(),
    {
        proof {
            use_type_invariant(self);
        }
        self.next
    }

    /// Whether the playback was cancelled.
    pub fn is_halted(&self) -> (halted: bool)
        ensures
            halted == self@.halted,
    {
        self.halted
    }

    /// Decides the worker's next move. Events are handed out in the order
    /// of the plan, each when its instant is reached; once the cancellation
    /// flag was seen set, nothing is handed out again.
    pub fn step(&mut self, elapsed: u128, stop: bool) -> (next: PlayStep)
        ensures
            next == old(self)@.move_at(elapsed, stop),
            final(self)@ == old(self)@.after(elapsed, stop),
    {
        proof {
            use_type_invariant(&*self);
        }
        if self.halted || stop {
            self.halted = true;
            return PlayStep::Stopped;
        }
        if self.next >= self.plan.len() {
            return PlayStep::Finished;
        }
        let event = self.plan[self.next];
        match wait_until(elapsed, event.target, false) {
            WaitStep::Sleep(nanos) => PlayStep::Sleep(nanos),
            WaitStep::Spin => PlayStep::Spin,
            _ => {
                self.next = self.next + 1;
                PlayStep::Deliver(event)
            },
        }
    }
}

/// Once a playback is cancelled it stays cancelled and hands out no further
/// event, whatever clock and flag read afterwards.
pub proof fn lemma_cancelled_stays_cancelled(p: PlaybackView, readings: Seq<(u128, bool)>)
    requires
        p.halted,
    ensures
        p.after_all(readings) == p,
    decreases readings.len(),
{
    if readings.len() > 0 {
        lemma_cancelled_stays_cancelled(p, readings.drop_last());
    }
}

/// A move that sees the cancellation flag set hands out nothing, whatever is
/// due, and leaves the count of delivered events as it was: events handed
/// out before are not taken back, and none is added to make up for them.
pub proof fn lemma_cancel_halts(p: PlaybackView, elapsed: u128, readings: Seq<(u128, bool)>)
    ensures
        p.move_at(elapsed, true) == PlayStep::Stopped,
        p.after(elapsed, true).delivered == p.delivered,
        p.after(elapsed, true).after_all(readings).delivered == p.delivered,
        forall|e: u128, s: bool|
            p.after(elapsed, true).after_all(readings).move_at(e, s) == PlayStep::Stopped,
{
    lemma_cancelled_stays_cancelled(p.after(elapsed, true), readings);
}

/// A playback hands its events out in the order of the plan: a move that
/// delivers hands out the event that follows those already delivered.
pub proof fn lemma_delivery_follows_plan(p: PlaybackView, elapsed: u128, stop: bool)
    requires
        p.delivered <= p.plan.len(),
    ensures
        p.after(elapsed, stop).delivered <= p.plan.len(),
        p.after(elapsed, stop).plan == p.plan,
        p.move_at(elapsed, stop) matches PlayStep::Deliver(event) ==> event == p.plan[p.delivered as int]
            && p.after(elapsed, stop).delivered == p.delivered + 1 && !stop,
        !(p.move_at(elapsed, stop) is Deliver) ==> p.after(elapsed, stop).delivered == p.delivered,
{
}

/// One thing that the caller is to do with playback workers, in the order
/// in which the commands are given.
#[derive(Debug)]
pub enum Command {
    /// Request cancellation of the worker that is held and wait until it
    /// has ended.
    CancelAndJoin,
    /// Wait until the worker that is held has ended.
    Join,
    /// Start a worker on this plan and hold it, and start a watcher that
    /// reports back after `watch_after` nanoseconds.
    Start { plan: Vec<Planned>, watch_after: u128 },
}

/// What a command holds.
pub enum CommandView {
    CancelAndJoin,
    Join,
    Start { plan: Seq<Planned>, watch_after: u128 },
}

impl View for Command {
    type V = CommandView;

    open spec fn view(&self) -> CommandView {
        match *self {
            Command::CancelAndJoin => CommandView::CancelAndJoin,
            Command::Join => CommandView::Join,
            Command::Start { plan, watch_after } => CommandView::Start { plan: plan@, watch_after },
        }
    }
}

/// What each of a sequence of commands holds.
pub open spec fn command_views(commands: Seq<Command>) -> Seq<CommandView> {
    commands.map_values(|c: Command| c@)
}

/// The commands of a launch of `plan`: the worker that is held, if there is
/// one, is cancelled and joined first; only then the new worker is started.
pub open spec fn launch_sequence(held: bool, plan: Seq<Planned>) -> Seq<CommandView> {
    let start = CommandView::Start { plan, watch_after: watch_after(plan) };
    if held {
        seq![CommandView::CancelAndJoin, start]
    } else {
        seq![start]
    }
}

/// The commands that stop playback: the worker that is held, if there is
/// one, is cancelled and joined.
pub open spec fn halt_sequence(held: bool) -> Seq<CommandView> {
    if held {
        seq![CommandView::CancelAndJoin]
    } else {
        Seq::empty()
    }
}

/// The commands of a watcher that reports back: the worker that is held,
/// if there is one, is joined.
pub open spec fn watch_sequence(held: bool) -> Seq<CommandView> {
    if held {
        seq![CommandView::Join]
    } else {
        Seq::empty()
    }
}

/// The commands of a watcher that reports back, where `held` says whether a
/// worker was started and not joined since. The caller holds no worker from
/// then on.
pub fn watched(held: bool) -> (commands: Vec<Command>)
    ensures
        command_views(commands@) == watch_sequence(held),
{
    let mut commands: Vec<Command> = Vec::new();
    if held {
        commands.push(Command::Join);
    }
    assert(command_views(commands@) =~= watch_sequence(held));
    commands
}

/// The commands that stop playback, where `held` says whether a worker was
/// started and not joined since. The caller holds no worker from then on.
pub fn halt(held: bool) -> (commands: Vec<Command>)
    ensures
        command_views(commands@) == halt_sequence(held),
{
    let mut commands: Vec<Command> = Vec::new();
    if held {
        commands.push(Command::CancelAndJoin);
    }
    assert(command_views(commands@) =~= halt_sequence(held));
    commands
}

/// The commands that start a playback of `plan`, where `held` says whether
/// a worker was started and not joined since. The caller holds the new
/// worker from then on.
pub fn launch(held: bool, plan: Vec<Planned>) -> (commands: Vec<Command>)
    ensures
        command_views(commands@) == launch_sequence(held, plan@),
{
    let mut commands = halt(held);
    let delay = watch_delay(&plan);
    let ghost halted = command_views(commands@);
    let ghost start = CommandView::Start { plan: plan@, watch_after: delay };
    commands.push(Command::Start { plan, watch_after: delay });
    proof {
        assert(commands@.last()@ == start);
        assert(command_views(commands@) =~= halted.push(start));
        assert(command_views(commands@) =~= launch_sequence(held, plan@));
    }
    commands
}

/// Starting a playback never leaves two workers at work: the commands end
/// with the one start of the new worker, and where a worker is held its
/// cancellation and join come before that start.
pub proof fn lemma_one_worker_at_a_time(held: bool, plan: Seq<Planned>)
    ensures
        launch_sequence(held, plan).last() is Start,
        forall|i: int|
            0 <= i < launch_sequence(held, plan).len() - 1 ==> !(#[trigger] launch_sequence(
                held,
                plan,
            )[i] is Start),
        held ==> launch_sequence(held, plan).len() == 2 && launch_sequence(held, plan)[0]
            == CommandView::CancelAndJoin,
        !held ==> launch_sequence(held, plan).len() == 1,
{
}

} // verus!
