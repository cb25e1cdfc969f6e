//! The worker that rotates segments: how it waits for a segment's time to be up, samples the active
//! window meanwhile, and goes on or ends.

use crate::config::{
    is_brought_into_bounds, normalize_screen_memory_config, rotator_continues, ScreenMemoryConfig,
};
use vstd::prelude::*;

verus! {

/// Nanoseconds in a second.
pub const NANOS: u128 = 1_000_000_000;

/// The longest that the worker sleeps before it looks at its stop signal again.
pub const ROTATOR_TICK_NANOS: u128 = 500_000_000;

/// A wait for a segment's time to be up. Times are nanoseconds on a clock that never goes back.
#[derive(Clone, Copy, Debug, PartialEq, Eq, Structural)]
pub struct RotationWait {
    /// When the segment's time is up.
    pub deadline: u128,
    /// How far samples are apart.
    pub sample_interval: u128,
    /// When the next sample is due.
    pub next_sample: u128,
}

/// What the worker does next.
#[derive(Clone, Copy, Debug, PartialEq, Eq, Structural)]
pub enum RotationPoll {
    /// It was told to stop: the worker ends.
    Stopped,
    /// The segment's time is up: it is rotated.
    Due,
    /// The wait goes on.
    Waiting,
}

/// Seconds between samples.
pub open spec fn sample_seconds(config: ScreenMemoryConfig) -> int {
    if config.sample_interval_seconds < 1 {
        1
    } else {
        config.sample_interval_seconds as int
    }
}

impl RotationWait {
    /// Starts a wait. The segment's time counts from `now`, and the first sample is due at
    /// `sample_from`.
    pub fn start(config: &ScreenMemoryConfig, now: u128, sample_from: u128) -> (r: RotationWait)
        requires
            now + config.segment_seconds * NANOS <= u128::MAX,
        ensures
            r.deadline == now + config.segment_seconds * NANOS,
            r.sample_interval == sample_seconds(*config) * NANOS,
            r.next_sample == sample_from,
            config.sample_interval_seconds >= 1 ==> r.sample_interval
                == config.sample_interval_seconds * NANOS,
            config.sample_interval_seconds == 0 ==> r.sample_interval == NANOS,
    {
        let seconds: u64 = if config.sample_interval_seconds < 1 {
            1
        } else {
            config.sample_interval_seconds
        };
        assert(seconds * NANOS <= u64::MAX * NANOS) by (nonlinear_arith)
            requires
                seconds <= u64::MAX,
        ;
        assert(config.segment_seconds * NANOS <= u64::MAX * NANOS) by (nonlinear_arith)
            requires
                config.segment_seconds <= u64::MAX,
        ;
        RotationWait {
            deadline: now + config.segment_seconds as u128 * NANOS,
            sample_interval: seconds as u128 * NANOS,
            next_sample: sample_from,
        }
    }

    /// What the worker does at `now`. A stop signal comes before everything else.
    pub fn poll(&self, stop_raised: bool, now: u128) -> (r: RotationPoll)
        ensures
            r == (if stop_raised {
                RotationPoll::Stopped
            } else if now >= self.deadline {
                RotationPoll::Due
            } else {
                RotationPoll::Waiting
            }),
    {
        if stop_raised {
            RotationPoll::Stopped
        } else if now >= self.deadline {
            RotationPoll::Due
        } else {
            RotationPoll::Waiting
        }
    }

    /// Whether a sample is due at `now`.
    pub fn sample_is_due(&self, now: u128) -> (r: bool)
        ensures
            r == (now >= self.next_sample),
    {
        now >= self.next_sample
    }

    /// Notes that a sample was taken: the next one is due an interval after `now`.
    pub fn note_sample(&mut self, now: u128)
        requires
            now + old(self).sample_interval <= u128::MAX,
        ensures
            *final(self) == (RotationWait {
                next_sample: (now + old(self).sample_interval) as u128,
                ..*old(self)
            }),
    {
        self.next_sample = now + self.sample_interval;
    }

    /// How long the worker sleeps when the deadline is looked at `now` and the next sample at
    /// `then`.
    pub open spec fn sleep(self, now: int, then: int) -> int {
        let remaining = if now < self.deadline {
            self.deadline - now
        } else {
            0
        };
        let until_sample = if then < self.next_sample {
            self.next_sample - then
        } else {
            0
        };
        let nearest = if remaining <= until_sample {
            remaining
        } else {
            until_sample
        };
        if nearest <= ROTATOR_TICK_NANOS {
            nearest
        } else {
            ROTATOR_TICK_NANOS as int
        }
    }

    /// How long the worker sleeps: until the deadline, the next sample or the next look at the stop
    /// signal, whichever comes first.
    pub fn sleep_nanos(&self, now: u128, then: u128) -> (r: u128)
        ensures
            r == self.sleep(now as int, then as int),
            r <= 500_000_000,
            now < self.deadline ==> now + r <= self.deadline,
            now >= self.deadline || then >= self.next_sample ==> r == 0,
            then < self.next_sample ==> then + r <= self.next_sample,
            now < self.deadline && then < self.next_sample ==> r == 500_000_000 || now + r
                == self.deadline || then + r == self.next_sample,
    {
        let remaining: u128 = if now < self.deadline {
            self.deadline - now
        } else {
            0
        };
        let until_sample: u128 = if then < self.next_sample {
            self.next_sample - then
        } else {
            0
        };
        let nearest: u128 = if remaining <= until_sample {
            remaining
        } else {
            until_sample
        };
        if nearest <= ROTATOR_TICK_NANOS {
            nearest
        } else {
            ROTATOR_TICK_NANOS
        }
    }
}

/// What happened in the course of a wait.
#[derive(Clone, Copy, Debug, PartialEq, Eq, Structural)]
pub enum WaitEvent {
    /// The worker woke. The deadline is looked at `now`, the next sample at `then`.
    Woke { stop_raised: bool, now: u128, then: u128 },
    /// A sample was taken, by `now`.
    Sampled { now: u128 },
    /// The clock was read before sleeping: for the deadline `now`, for the next sample `then`.
    Measured { now: u128, then: u128 },
}

/// What has to be done next in the course of a wait.
#[derive(Clone, Copy, Debug, PartialEq, Eq, Structural)]
pub enum WaitAction {
    /// The wait is over. Tells whether the worker was told to stop.
    Return(bool),
    /// Take a sample of the active window.
    Sample,
    /// Read the clock before sleeping.
    Measure,
    /// Sleep for so many nanoseconds.
    Sleep(u128),
}

impl RotationWait {
    /// What follows an event in the course of the wait: the stop signal comes first, then the
    /// deadline, then a sample, then sleep.
    pub open spec fn action(self, event: WaitEvent) -> WaitAction {
        match event {
            WaitEvent::Woke { stop_raised, now, then } => if stop_raised {
                WaitAction::Return(true)
            } else if now >= self.deadline {
                WaitAction::Return(false)
            } else if then >= self.next_sample {
                WaitAction::Sample
            } else {
                WaitAction::Measure
            },
            WaitEvent::Sampled { .. } => WaitAction::Measure,
            WaitEvent::Measured { now, then } => WaitAction::Sleep(
                self.sleep(now as int, then as int) as u128,
            ),
        }
    }

    /// The wait after an event.
    pub open spec fn after(self, event: WaitEvent) -> RotationWait {
        match event {
            WaitEvent::Sampled { now } => RotationWait {
                next_sample: (now + self.sample_interval) as u128,
                ..self
            },
            _ => self,
        }
    }

    /// Decides what follows an event in the course of the wait.
    pub fn wait_for_rotation(&mut self, event: WaitEvent) -> (r: WaitAction)
        requires
            event matches WaitEvent::Sampled { now } ==> now + old(self).sample_interval
                <= u128::MAX,
        ensures
            r == old(self).action(event),
            *final(self) == old(self).after(event),
            final(self).deadline == old(self).deadline,
            final(self).sample_interval == old(self).sample_interval,
            event matches WaitEvent::Sampled { now } ==> final(self).next_sample == now
                + old(self).sample_interval && r is Measure,
            !(event is Sampled) ==> final(self).next_sample == old(self).next_sample,
            event matches WaitEvent::Woke { stop_raised, now, then } ==> (r == (if stop_raised {
                WaitAction::Return(true)
            } else if now >= old(self).deadline {
                WaitAction::Return(false)
            } else if then >= old(self).next_sample {
                WaitAction::Sample
            } else {
                WaitAction::Measure
            })),
            event is Measured ==> r is Sleep,
    {
        match event {
            WaitEvent::Woke { stop_raised, now, then } => match self.poll(stop_raised, now) {
                RotationPoll::Stopped => WaitAction::Return(true),
                RotationPoll::Due => WaitAction::Return(false),
                RotationPoll::Waiting => if self.sample_is_due(then) {
                    WaitAction::Sample
                } else {
                    WaitAction::Measure
                },
            },
            WaitEvent::Sampled { now } => {
                self.note_sample(now);
                WaitAction::Measure
            },
            WaitEvent::Measured { now, then } => WaitAction::Sleep(self.sleep_nanos(now, then)),
        }
    }
}

/// `event` reports on `action`.
pub open spec fn answers_wait(action: WaitAction, event: WaitEvent) -> bool {
    match action {
        WaitAction::Return(_) => false,
        WaitAction::Sample => event is Sampled,
        WaitAction::Measure => event is Measured,
        WaitAction::Sleep(_) => event is Woke,
    }
}

/// The wait that began as `start`, before the event with the number `n`.
pub open spec fn wait_before(start: RotationWait, events: Seq<WaitEvent>, n: int) -> RotationWait
    decreases n,
{
    if n <= 0 {
        start
    } else {
        wait_before(start, events, n - 1).after(events[n - 1])
    }
}

/// `events` is the course of the wait that began as `start`, each event reporting on what the one
/// before called for.
pub open spec fn is_wait(start: RotationWait, events: Seq<WaitEvent>) -> bool {
    &&& events.len() > 0
    &&& events[0] is Woke
    &&& forall|i: int|
        0 < i < events.len() ==> answers_wait(
            wait_before(start, events, i - 1).action(events[i - 1]),
            #[trigger] events[i],
        )
}

proof fn deadline_stays(start: RotationWait, events: Seq<WaitEvent>, n: int)
    ensures
        wait_before(start, events, n).deadline == start.deadline,
        wait_before(start, events, n).sample_interval == start.sample_interval,
    decreases n,
{
    if n > 0 {
        deadline_stays(start, events, n - 1);
    }
}

/// No sample follows a stop or an elapsed deadline: the worker takes one only right after it woke,
/// found its stop signal down and the segment's time not up.
pub proof fn no_sample_after_stop_or_deadline(
    start: RotationWait,
    events: Seq<WaitEvent>,
    i: int,
)
    requires
        is_wait(start, events),
        0 <= i < events.len(),
        events[i] is Sampled,
    ensures
        i > 0,
        events[i - 1] matches WaitEvent::Woke { stop_raised, now, .. } && !stop_raised && now
            < start.deadline,
{
    assert(answers_wait(wait_before(start, events, i - 1).action(events[i - 1]), events[i]));
    deadline_stays(start, events, i - 1);
}

/// A worker that wakes to a stop signal or past the deadline is done waiting: nothing follows, and
/// it tells the stop from the deadline.
pub proof fn stop_or_deadline_ends_the_wait(start: RotationWait, events: Seq<WaitEvent>, i: int)
    requires
        is_wait(start, events),
        0 <= i < events.len(),
        events[i] matches WaitEvent::Woke { stop_raised, now, .. } && (stop_raised || now
            >= start.deadline),
    ensures
        i == events.len() - 1,
        wait_before(start, events, i).action(events[i]) == WaitAction::Return(
            events[i]->stop_raised,
        ),
{
    deadline_stays(start, events, i);
    if i < events.len() - 1 {
        assert(answers_wait(wait_before(start, events, i).action(events[i]), events[i + 1]));
    }
}

/// The time from which on the sample that follows the one at `i` may be taken.
proof fn next_sample_stays(start: RotationWait, events: Seq<WaitEvent>, i: int, n: int)
    requires
        0 <= i < n <= events.len(),
        events[i] is Sampled,
        forall|j: int| i < j < n ==> !(#[trigger] events[j] is Sampled),
    ensures
        wait_before(start, events, n).next_sample == (events[i]->Sampled_now
            + start.sample_interval) as u128,
    decreases n,
{
    if n == i + 1 {
        deadline_stays(start, events, i);
    } else {
        assert(!(events[n - 1] is Sampled));
        next_sample_stays(start, events, i, n - 1);
    }
}

/// Between a sample and the next one there is at least the sample interval.
pub proof fn samples_are_an_interval_apart(
    start: RotationWait,
    events: Seq<WaitEvent>,
    i: int,
    k: int,
)
    requires
        is_wait(start, events),
        0 <= i < k < events.len(),
        events[i] is Sampled,
        events[k] is Sampled,
        forall|j: int| i < j < k ==> !(#[trigger] events[j] is Sampled),
        events[i]->Sampled_now + start.sample_interval <= u128::MAX,
    ensures
        events[k - 1] matches WaitEvent::Woke { then, .. } && then >= events[i]->Sampled_now
            + start.sample_interval,
{
    assert(answers_wait(wait_before(start, events, k - 1).action(events[k - 1]), events[k]));
    assert(i < k - 1);
    next_sample_stays(start, events, i, k - 1);
}

/// The worker never sleeps past the segment's end, past the next sample, or longer than a tick, so
/// that it always looks at its stop signal in time.
pub proof fn sleep_never_oversleeps(wait: RotationWait, now: int, then: int)
    ensures
        0 <= wait.sleep(now, then) <= ROTATOR_TICK_NANOS,
        now < wait.deadline ==> now + wait.sleep(now, then) <= wait.deadline,
        then < wait.next_sample ==> then + wait.sleep(now, then) <= wait.next_sample,
{
}

/// While neither the segment's end nor a sample is due, the worker does sleep.
pub proof fn waiting_worker_sleeps(wait: RotationWait, now: int, then: int)
    requires
        now < wait.deadline,
        then < wait.next_sample,
    ensures
        wait.sleep(now, then) > 0,
{
}

/// Under settings within their bounds samples are at least a second apart, and no further than a
/// segment is long.
pub proof fn samples_fit_into_segments(config: ScreenMemoryConfig)
    requires
        config.in_bounds(),
    ensures
        NANOS <= sample_seconds(config) * NANOS <= config.segment_seconds * NANOS,
{
    assert(NANOS <= sample_seconds(config) * NANOS <= config.segment_seconds * NANOS)
        by (nonlinear_arith)
        requires
            1 <= sample_seconds(config) <= config.segment_seconds,
    ;
}

/// What happened to the worker that rotates segments.
pub enum RotatorEvent {
    /// Its round begins under these settings.
    Began(ScreenMemoryConfig),
    /// The wait is over. Tells whether the worker was told to stop.
    Waited(bool),
    /// The settings were read again.
    SettingsRead(ScreenMemoryConfig),
    /// The segment was rotated, or why it was not.
    Rotated(Result<(), String>),
    /// The error of a rotation was noted.
    Noted,
}

/// What the worker that rotates segments has to do next.
pub enum RotatorAction {
    /// Wait for the segment's time to be up, under these settings.
    Wait(ScreenMemoryConfig),
    /// Read the settings again.
    ReadSettings,
    /// Rotate the segment under these settings.
    Rotate(ScreenMemoryConfig),
    /// Note the error and go on.
    Note(String),
    /// Read the settings and begin the next round.
    Begin,
    /// The worker ends.
    End,
}

/// What follows an event of the worker.
pub open spec fn after_rotator_event(event: RotatorEvent) -> RotatorAction {
    match event {
        RotatorEvent::Began(config) => RotatorAction::Wait(config.normalized()),
        RotatorEvent::Waited(stopped) => if stopped {
            RotatorAction::End
        } else {
            RotatorAction::ReadSettings
        },
        RotatorEvent::SettingsRead(config) => if config.wants_capture() {
            RotatorAction::Rotate(config.normalized())
        } else {
            RotatorAction::End
        },
        RotatorEvent::Rotated(Ok(_)) => RotatorAction::Begin,
        RotatorEvent::Rotated(Err(err)) => RotatorAction::Note(err),
        RotatorEvent::Noted => RotatorAction::Begin,
    }
}

/// Decides what follows an event of the worker.
pub fn rotator_step(event: RotatorEvent) -> (r: RotatorAction)
    ensures
        r == after_rotator_event(event),
        event matches RotatorEvent::Began(config) ==> (r matches RotatorAction::Wait(used)
            && is_brought_into_bounds(config, used)),
        event matches RotatorEvent::SettingsRead(config) ==> (config.enabled && !config.paused <==> r
            is Rotate),
        r matches RotatorAction::Rotate(used) ==> (event matches RotatorEvent::SettingsRead(config)
            && is_brought_into_bounds(config, used)),
{
    match event {
        RotatorEvent::Began(config) => RotatorAction::Wait(normalize_screen_memory_config(config)),
        RotatorEvent::Waited(stopped) => if stopped {
            RotatorAction::End
        } else {
            RotatorAction::ReadSettings
        },
        RotatorEvent::SettingsRead(config) => match rotator_continues(config) {
            Some(config) => RotatorAction::Rotate(config),
            None => RotatorAction::End,
        },
        RotatorEvent::Rotated(outcome) => match outcome {
            Ok(()) => RotatorAction::Begin,
            Err(err) => RotatorAction::Note(err),
        },
        RotatorEvent::Noted => RotatorAction::Begin,
    }
}

/// `event` reports on `action`.
pub open spec fn answers_rotator(action: RotatorAction, event: RotatorEvent) -> bool {
    match action {
        RotatorAction::Wait(_) => event is Waited,
        RotatorAction::ReadSettings => event is SettingsRead,
        RotatorAction::Rotate(_) => event is Rotated,
        RotatorAction::Note(_) => event is Noted,
        RotatorAction::Begin => event is Began,
        RotatorAction::End => false,
    }
}

/// `events` is what happened to one worker, each event reporting on what the one before called for.
pub open spec fn is_rotator_run(events: Seq<RotatorEvent>) -> bool {
    &&& events.len() > 0
    &&& events[0] is Began
    &&& forall|i: int|
        0 < i < events.len() ==> answers_rotator(
            after_rotator_event(events[i - 1]),
            #[trigger] events[i],
        )
}

/// A worker rotates only after a wait that no stop ended, and under settings, read after it, that
/// ask for recording.
pub proof fn worker_rotates_only_while_wanted(events: Seq<RotatorEvent>, i: int)
    requires
        is_rotator_run(events),
        0 <= i < events.len(),
        events[i] is Rotated,
    ensures
        i >= 3,
        events[i - 1] matches RotatorEvent::SettingsRead(config) && config.wants_capture()
            && after_rotator_event(events[i - 1]) == RotatorAction::Rotate(config.normalized()),
        events[i - 2] == RotatorEvent::Waited(false),
{
    assert(answers_rotator(after_rotator_event(events[i - 1]), events[i]));
    assert(answers_rotator(after_rotator_event(events[i - 2]), events[i - 1]));
    assert(answers_rotator(after_rotator_event(events[i - 3]), events[i - 2]));
}

/// A worker ends with the stop that ended its wait, or with the settings that no longer ask for
/// recording: nothing follows.
pub proof fn stop_or_settings_end_the_worker(events: Seq<RotatorEvent>, i: int)
    requires
        is_rotator_run(events),
        0 <= i < events.len(),
        events[i] == RotatorEvent::Waited(true) || (events[i] matches RotatorEvent::SettingsRead(
            config,
        ) && !config.wants_capture()),
    ensures
        i == events.len() - 1,
        after_rotator_event(events[i]) is End,
{
    if i < events.len() - 1 {
        assert(answers_rotator(after_rotator_event(events[i]), events[i + 1]));
    }
}

/// A rotation that failed does not end the worker: its error is noted, and the next round begins.
pub proof fn failed_rotation_does_not_end_the_worker(err: String)
    ensures
        after_rotator_event(RotatorEvent::Rotated(Err(err))) == RotatorAction::Note(err),
        after_rotator_event(RotatorEvent::Noted) is Begin,
        after_rotator_event(RotatorEvent::Rotated(Ok(()))) is Begin,
{
}

/// The worker sleeps until the segment's end, the next sample or the next look at its stop signal,
/// whichever comes first; it does not sleep once an end or a sample is due.
pub proof fn sleep_is_until_the_first_of_three(wait: RotationWait, now: int, then: int)
    ensures
        now >= wait.deadline || then >= wait.next_sample ==> wait.sleep(now, then) == 0,
        now < wait.deadline && then < wait.next_sample ==> {
            &&& wait.sleep(now, then) <= 500_000_000
            &&& wait.sleep(now, then) <= wait.deadline - now
            &&& wait.sleep(now, then) <= wait.next_sample - then
            &&& wait.sleep(now, then) == 500_000_000 || wait.sleep(now, then) == wait.deadline - now
                || wait.sleep(now, then) == wait.next_sample - then
        },
{
}

/// Each event of a wait has its one answer, and only a sample moves the time of the next one.
pub proof fn each_wait_event_has_its_answer(
    wait: RotationWait,
    stop_raised: bool,
    now: u128,
    then: u128,
)
    requires
        now + wait.sample_interval <= u128::MAX,
    ensures
        wait.action(WaitEvent::Woke { stop_raised: true, now, then }) == WaitAction::Return(true),
        now >= wait.deadline ==> wait.action(WaitEvent::Woke { stop_raised: false, now, then })
            == WaitAction::Return(false),
        now < wait.deadline && then >= wait.next_sample ==> wait.action(
            WaitEvent::Woke { stop_raised: false, now, then },
        ) == WaitAction::Sample,
        now < wait.deadline && then < wait.next_sample ==> wait.action(
            WaitEvent::Woke { stop_raised: false, now, then },
        ) == WaitAction::Measure,
        wait.action(WaitEvent::Sampled { now }) == WaitAction::Measure,
        wait.action(WaitEvent::Measured { now, then }) matches WaitAction::Sleep(nanos) && nanos
            == wait.sleep(now as int, then as int),
        wait.after(WaitEvent::Sampled { now }).next_sample == now + wait.sample_interval,
        wait.after(WaitEvent::Sampled { now }).deadline == wait.deadline,
        wait.after(WaitEvent::Sampled { now }).sample_interval == wait.sample_interval,
        wait.after(WaitEvent::Woke { stop_raised, now, then }) == wait,
        wait.after(WaitEvent::Measured { now, then }) == wait,
{
}

/// Each event of the worker has its one answer.
pub proof fn each_rotator_event_has_its_answer(config: ScreenMemoryConfig, err: String)
    ensures
        after_rotator_event(RotatorEvent::Began(config)) == RotatorAction::Wait(
            config.normalized(),
        ),
        after_rotator_event(RotatorEvent::Waited(true)) is End,
        after_rotator_event(RotatorEvent::Waited(false)) is ReadSettings,
        config.enabled && !config.paused ==> after_rotator_event(
            RotatorEvent::SettingsRead(config),
        ) == RotatorAction::Rotate(config.normalized()),
        !(config.enabled && !config.paused) ==> after_rotator_event(
            RotatorEvent::SettingsRead(config),
        ) is End,
        after_rotator_event(RotatorEvent::Rotated(Err(err))) == RotatorAction::Note(err),
        after_rotator_event(RotatorEvent::Rotated(Ok(()))) is Begin,
        after_rotator_event(RotatorEvent::Noted) is Begin,
        sample_seconds(config) >= 1,
        config.sample_interval_seconds >= 1 ==> sample_seconds(config)
            == config.sample_interval_seconds,
        config.sample_interval_seconds == 0 ==> sample_seconds(config) == 1,
{
}

} // verus!
