//! The recorder at work: the segment in progress, and what starting, rotating and stopping it take.

use crate::capture::MACOS_ONLY;
use crate::segment::{
    made_id_is_its_own_id, sanitize_segment_id, sanitized, segment_id_text,
    ActiveScreenMemorySegment, ScreenMemorySegmentMetadata,
};
use vstd::prelude::*;

verus! {

/// What the recorder holds while it runs: the segment in progress, the stop signal of the worker
/// that rotates it, and the last error.
pub struct ScreenMemoryRuntime<B, W> {
    pub active: Option<ActiveScreenMemorySegment<B>>,
    pub worker_stop: Option<W>,
    pub last_error: Option<String>,
}

/// The state that the recorder's commands and its worker share.
pub struct ScreenMemoryState<B, W> {
    pub inner: ScreenMemoryRuntime<B, W>,
}

/// A segment and a stop signal that were taken out of the state.
pub struct Taken<B, W> {
    pub active: Option<ActiveScreenMemorySegment<B>>,
    pub worker_stop: Option<W>,
}

impl<B, W> Default for ScreenMemoryState<B, W> {
    /// A recorder that has not recorded anything yet.
    fn default() -> (r: Self)
        ensures
            r.inner.active is None,
            r.inner.worker_stop is None,
            r.inner.last_error is None,
    {
        ScreenMemoryState {
            inner: ScreenMemoryRuntime { active: None, worker_stop: None, last_error: None },
        }
    }
}

impl<B, W> ScreenMemoryState<B, W> {
    /// A segment is in progress.
    pub open spec fn recording(self) -> bool {
        self.inner.active is Some
    }

    /// Whether a segment is in progress.
    pub fn is_recording(&self) -> (r: bool)
        ensures
            r == self.recording(),
            r == (self.inner.active is Some),
    {
        self.inner.active.is_some()
    }

    /// The state once `active` was made the segment in progress of a worker with the signal `stop`,
    /// and what is handed back.
    pub open spec fn with_started(self, active: ActiveScreenMemorySegment<B>, stop: W) -> (
        Self,
        Option<ActiveScreenMemorySegment<B>>,
    ) {
        if self.recording() {
            (self, Some(active))
        } else {
            (
                ScreenMemoryState {
                    inner: ScreenMemoryRuntime {
                        active: Some(active),
                        worker_stop: Some(stop),
                        last_error: None,
                    },
                },
                None,
            )
        }
    }

    /// The state once `next` was made the segment in progress after a rotation, and what is handed
    /// back.
    pub open spec fn with_rotated(
        self,
        next: ActiveScreenMemorySegment<B>,
        stop_raised: Option<bool>,
    ) -> (Self, Option<ActiveScreenMemorySegment<B>>) {
        if stop_raised == Some(false) && !self.recording() {
            (
                ScreenMemoryState {
                    inner: ScreenMemoryRuntime {
                        active: Some(next),
                        last_error: None,
                        ..self.inner
                    },
                },
                None,
            )
        } else {
            (self, Some(next))
        }
    }

    /// The state without a segment in progress.
    pub open spec fn without_active(self) -> Self {
        ScreenMemoryState { inner: ScreenMemoryRuntime { active: None, ..self.inner } }
    }

    /// The state without a segment in progress and without a worker.
    pub open spec fn stopped(self) -> Self {
        ScreenMemoryState {
            inner: ScreenMemoryRuntime { active: None, worker_stop: None, ..self.inner },
        }
    }

    /// Makes `active` the segment in progress and `stop` the signal of its worker. If a segment is
    /// in progress already, nothing changes and `active` is handed back.
    pub fn install_started(&mut self, active: ActiveScreenMemorySegment<B>, stop: W) -> (r: Option<
        ActiveScreenMemorySegment<B>,
    >)
        ensures
            (*final(self), r) == old(self).with_started(active, stop),
            old(self).inner.active is Some ==> *final(self) == *old(self) && r == Some(active),
            old(self).inner.active is None ==> r is None && final(self).inner.active == Some(active)
                && final(self).inner.worker_stop == Some(stop) && final(self).inner.last_error
                is None,
    {
        if self.inner.active.is_some() {
            return Some(active);
        }
        self.inner = ScreenMemoryRuntime {
            active: Some(active),
            worker_stop: Some(stop),
            last_error: None,
        };
        None
    }

    /// Takes the segment in progress out of the state, to be rotated.
    pub fn take_active(&mut self) -> (r: Option<ActiveScreenMemorySegment<B>>)
        ensures
            r == old(self).inner.active,
            *final(self) == old(self).without_active(),
            final(self).inner.active is None,
            final(self).inner.worker_stop == old(self).inner.worker_stop,
            final(self).inner.last_error == old(self).inner.last_error,
    {
        self.inner.active.take()
    }

    /// Makes `next` the segment in progress after a rotation, unless the worker was stopped or
    /// another segment is in progress by then: `next` is handed back, and nothing changes.
    /// `stop_raised` is the state of the worker's stop signal, where there is a worker.
    pub fn install_rotated(
        &mut self,
        next: ActiveScreenMemorySegment<B>,
        stop_raised: Option<bool>,
    ) -> (r: Option<ActiveScreenMemorySegment<B>>)
        ensures
            (*final(self), r) == old(self).with_rotated(next, stop_raised),
            stop_raised == Some(false) && old(self).inner.active is None ==> r is None
                && final(self).inner.active == Some(next) && final(self).inner.last_error is None
                && final(self).inner.worker_stop == old(self).inner.worker_stop,
            !(stop_raised == Some(false) && old(self).inner.active is None) ==> *final(self)
                == *old(self) && r == Some(next),
    {
        let still_running = match stop_raised {
            Some(raised) => !raised,
            None => false,
        };
        if still_running && self.inner.active.is_none() {
            self.inner.active = Some(next);
            self.inner.last_error = None;
            None
        } else {
            Some(next)
        }
    }

    /// Takes the segment in progress and the worker's stop signal out of the state, to be stopped.
    pub fn take_for_stop(&mut self) -> (r: Taken<B, W>)
        ensures
            r.active == old(self).inner.active,
            r.worker_stop == old(self).inner.worker_stop,
            *final(self) == old(self).stopped(),
            final(self).inner.active is None,
            final(self).inner.worker_stop is None,
            final(self).inner.last_error == old(self).inner.last_error,
    {
        let worker_stop = self.inner.worker_stop.take();
        let active = self.inner.active.take();
        Taken { active, worker_stop }
    }

    /// The segment in progress is the one filed under `segment_id`.
    pub open spec fn is_active_segment(self, segment_id: Seq<char>) -> bool {
        self.inner.active matches Some(active) && active.id@ == sanitized(segment_id)
    }

    /// Whether the segment in progress is the one filed under `segment_id`, so that it has to be
    /// stopped before it is deleted.
    pub fn stop_active_segment_if_matches(&self, segment_id: &str) -> (r: bool)
        ensures
            r == self.is_active_segment(segment_id@),
            r <==> (self.inner.active matches Some(active) && active.id@ == sanitized(segment_id@)),
    {
        match &self.inner.active {
            Some(active) => active.id == sanitize_segment_id(segment_id),
            None => false,
        }
    }

    /// Notes the last error.
    pub fn record_error(&mut self, error: String)
        ensures
            final(self).inner == (ScreenMemoryRuntime {
                last_error: Some(error),
                ..old(self).inner
            }),
    {
        self.inner.last_error = Some(error);
    }
}

/// What happened on the way to a running recorder.
pub enum EnsureEvent<B> {
    /// The recorder is asked to run.
    Asked { available: bool, recording: bool },
    /// A segment was started, or why it was not.
    Started(Result<ActiveScreenMemorySegment<B>, String>),
    /// The segment was installed, or is handed back because another one is in progress.
    Installed(Option<ActiveScreenMemorySegment<B>>),
    /// The segment that was handed back was discarded.
    Discarded,
    /// The worker that rotates segments was started.
    WorkerStarted,
    /// Old segments were pruned, or why they were not.
    Pruned(Result<(), String>),
    /// The change was announced.
    Announced,
}

/// What has to be done next for a running recorder.
pub enum EnsureAction<B> {
    /// Start a segment.
    Start,
    /// Make it the segment in progress.
    Install(ActiveScreenMemorySegment<B>),
    /// Stop it and remove its file.
    Discard(ActiveScreenMemorySegment<B>),
    /// Start the worker that rotates segments.
    StartWorker,
    /// Prune old segments.
    Prune,
    /// Announce the change.
    Announce,
    /// The recorder runs.
    Done,
    /// Nothing can be recorded here, and the user is told so in these words.
    Unavailable(&'static str),
    /// The recorder could not be brought to run, for this reason.
    Fail(String),
}

/// What follows an event on the way to a running recorder.
pub open spec fn after_ensure_event<B>(event: EnsureEvent<B>) -> EnsureAction<B> {
    match event {
        EnsureEvent::Asked { available, recording } => if !available {
            EnsureAction::Unavailable(MACOS_ONLY)
        } else if recording {
            EnsureAction::Done
        } else {
            EnsureAction::Start
        },
        EnsureEvent::Started(Ok(active)) => EnsureAction::Install(active),
        EnsureEvent::Started(Err(err)) => EnsureAction::Fail(err),
        EnsureEvent::Installed(Some(refused)) => EnsureAction::Discard(refused),
        EnsureEvent::Installed(None) => EnsureAction::StartWorker,
        EnsureEvent::Discarded => EnsureAction::Done,
        EnsureEvent::WorkerStarted => EnsureAction::Prune,
        EnsureEvent::Pruned(Ok(())) => EnsureAction::Announce,
        EnsureEvent::Pruned(Err(err)) => EnsureAction::Fail(err),
        EnsureEvent::Announced => EnsureAction::Done,
    }
}

/// Decides what follows an event on the way to a running recorder.
pub fn ensure_running<B>(event: EnsureEvent<B>) -> (r: EnsureAction<B>)
    ensures
        r == after_ensure_event(event),
{
    match event {
        EnsureEvent::Asked { available, recording } => if !available {
            EnsureAction::Unavailable(MACOS_ONLY)
        } else if recording {
            EnsureAction::Done
        } else {
            EnsureAction::Start
        },
        EnsureEvent::Started(outcome) => match outcome {
            Ok(active) => EnsureAction::Install(active),
            Err(err) => EnsureAction::Fail(err),
        },
        EnsureEvent::Installed(refused) => match refused {
            Some(refused) => EnsureAction::Discard(refused),
            None => EnsureAction::StartWorker,
        },
        EnsureEvent::Discarded => EnsureAction::Done,
        EnsureEvent::WorkerStarted => EnsureAction::Prune,
        EnsureEvent::Pruned(outcome) => match outcome {
            Ok(()) => EnsureAction::Announce,
            Err(err) => EnsureAction::Fail(err),
        },
        EnsureEvent::Announced => EnsureAction::Done,
    }
}

/// What happened in the course of a rotation.
pub enum RotateEvent<B> {
    /// The segment in progress, if any, was taken out of the state.
    Taken(Option<ActiveScreenMemorySegment<B>>),
    /// The segment was finished, or why it was not.
    Finalized(Result<ScreenMemorySegmentMetadata, String>),
    /// The error of a segment that could not be finished was noted.
    Noted,
    /// The metadata was stored, or why it was not.
    Stored(Result<(), String>),
    /// Old segments were pruned, or why they were not.
    Pruned(Result<(), String>),
    /// The next segment was started, or why it was not.
    Started(Result<ActiveScreenMemorySegment<B>, String>),
    /// The next segment was installed, or is handed back.
    Installed(Option<ActiveScreenMemorySegment<B>>),
    /// The segment that was handed back was discarded.
    Discarded,
    /// The change was announced.
    Announced,
}

/// What has to be done next in the course of a rotation.
pub enum RotateAction<B> {
    /// Finish the segment.
    Finalize(ActiveScreenMemorySegment<B>),
    /// Store its metadata.
    Store(ScreenMemorySegmentMetadata),
    /// Note the error and go on.
    Note(String),
    /// Prune old segments.
    Prune,
    /// Start the next segment.
    Start,
    /// Make it the segment in progress.
    Install(ActiveScreenMemorySegment<B>),
    /// Stop it and remove its file.
    Discard(ActiveScreenMemorySegment<B>),
    /// Announce the change.
    Announce,
    /// The rotation is over.
    Done,
    /// The rotation is given up, for this reason.
    Fail(String),
}

/// What follows an event in the course of a rotation.
pub open spec fn after_rotate_event<B>(event: RotateEvent<B>) -> RotateAction<B> {
    match event {
        RotateEvent::Taken(Some(active)) => RotateAction::Finalize(active),
        RotateEvent::Taken(None) => RotateAction::Start,
        RotateEvent::Finalized(Ok(segment)) => RotateAction::Store(segment),
        RotateEvent::Finalized(Err(err)) => RotateAction::Note(err),
        RotateEvent::Noted => RotateAction::Start,
        RotateEvent::Stored(Ok(())) => RotateAction::Prune,
        RotateEvent::Stored(Err(err)) => RotateAction::Fail(err),
        RotateEvent::Pruned(Ok(())) => RotateAction::Start,
        RotateEvent::Pruned(Err(err)) => RotateAction::Fail(err),
        RotateEvent::Started(Ok(next)) => RotateAction::Install(next),
        RotateEvent::Started(Err(err)) => RotateAction::Fail(err),
        RotateEvent::Installed(Some(refused)) => RotateAction::Discard(refused),
        RotateEvent::Installed(None) => RotateAction::Announce,
        RotateEvent::Discarded => RotateAction::Announce,
        RotateEvent::Announced => RotateAction::Done,
    }
}

/// Decides what follows an event in the course of a rotation.
pub fn rotate_segment<B>(event: RotateEvent<B>) -> (r: RotateAction<B>)
    ensures
        r == after_rotate_event(event),
{
    match event {
        RotateEvent::Taken(active) => match active {
            Some(active) => RotateAction::Finalize(active),
            None => RotateAction::Start,
        },
        RotateEvent::Finalized(outcome) => match outcome {
            Ok(segment) => RotateAction::Store(segment),
            Err(err) => RotateAction::Note(err),
        },
        RotateEvent::Noted => RotateAction::Start,
        RotateEvent::Stored(outcome) => match outcome {
            Ok(()) => RotateAction::Prune,
            Err(err) => RotateAction::Fail(err),
        },
        RotateEvent::Pruned(outcome) => match outcome {
            Ok(()) => RotateAction::Start,
            Err(err) => RotateAction::Fail(err),
        },
        RotateEvent::Started(outcome) => match outcome {
            Ok(next) => RotateAction::Install(next),
            Err(err) => RotateAction::Fail(err),
        },
        RotateEvent::Installed(refused) => match refused {
            Some(refused) => RotateAction::Discard(refused),
            None => RotateAction::Announce,
        },
        RotateEvent::Discarded => RotateAction::Announce,
        RotateEvent::Announced => RotateAction::Done,
    }
}

/// What happened in the course of stopping.
pub enum StopEvent<B, W> {
    /// The segment in progress and the worker's stop signal, as far as there are any, were taken out
    /// of the state.
    Taken(Taken<B, W>),
    /// The worker's signal was raised, where there is one. The segment is still to be finished.
    Raised(Option<ActiveScreenMemorySegment<B>>),
    /// The segment was finished, or why it was not.
    Finalized(Result<ScreenMemorySegmentMetadata, String>),
    /// The metadata was stored, or why it was not.
    Stored(Result<ScreenMemorySegmentMetadata, String>),
    /// Old segments were pruned, or why they were not.
    Pruned(Result<ScreenMemorySegmentMetadata, String>),
    /// The change was announced.
    Announced(ScreenMemorySegmentMetadata),
}

/// What has to be done next in the course of stopping.
pub enum StopAction<B, W> {
    /// Raise this signal, if there is one, and go on with the segment.
    Raise(Option<W>, Option<ActiveScreenMemorySegment<B>>),
    /// Finish the segment.
    Finalize(ActiveScreenMemorySegment<B>),
    /// Store its metadata.
    Store(ScreenMemorySegmentMetadata),
    /// Prune old segments.
    Prune(ScreenMemorySegmentMetadata),
    /// Announce the change.
    Announce(ScreenMemorySegmentMetadata),
    /// The recorder has stopped, with this as its last segment, if there was one.
    Done(Option<ScreenMemorySegmentMetadata>),
    /// Stopping failed, for this reason.
    Fail(String),
}

/// What follows an event in the course of stopping.
pub open spec fn after_stop_event<B, W>(event: StopEvent<B, W>) -> StopAction<B, W> {
    match event {
        StopEvent::Taken(taken) => StopAction::Raise(taken.worker_stop, taken.active),
        StopEvent::Raised(Some(active)) => StopAction::Finalize(active),
        StopEvent::Raised(None) => StopAction::Done(None),
        StopEvent::Finalized(Ok(segment)) => StopAction::Store(segment),
        StopEvent::Finalized(Err(err)) => StopAction::Fail(err),
        StopEvent::Stored(Ok(segment)) => StopAction::Prune(segment),
        StopEvent::Stored(Err(err)) => StopAction::Fail(err),
        StopEvent::Pruned(Ok(segment)) => StopAction::Announce(segment),
        StopEvent::Pruned(Err(err)) => StopAction::Fail(err),
        StopEvent::Announced(segment) => StopAction::Done(Some(segment)),
    }
}

/// Decides what follows an event in the course of stopping.
pub fn stop_active_segment<B, W>(event: StopEvent<B, W>) -> (r: StopAction<B, W>)
    ensures
        r == after_stop_event(event),
{
    match event {
        StopEvent::Taken(taken) => StopAction::Raise(taken.worker_stop, taken.active),
        StopEvent::Raised(active) => match active {
            Some(active) => StopAction::Finalize(active),
            None => StopAction::Done(None),
        },
        StopEvent::Finalized(outcome) => match outcome {
            Ok(segment) => StopAction::Store(segment),
            Err(err) => StopAction::Fail(err),
        },
        StopEvent::Stored(outcome) => match outcome {
            Ok(segment) => StopAction::Prune(segment),
            Err(err) => StopAction::Fail(err),
        },
        StopEvent::Pruned(outcome) => match outcome {
            Ok(segment) => StopAction::Announce(segment),
            Err(err) => StopAction::Fail(err),
        },
        StopEvent::Announced(segment) => StopAction::Done(Some(segment)),
    }
}

/// A segment in progress shields itself: starting another one hands that back and changes nothing.
pub proof fn second_start_is_refused<B, W>(
    state: ScreenMemoryState<B, W>,
    first: ActiveScreenMemorySegment<B>,
    first_stop: W,
    second: ActiveScreenMemorySegment<B>,
    second_stop: W,
)
    ensures
        ({
            let started = state.with_started(first, first_stop).0;
            started.with_started(second, second_stop) == (started, Some(second))
        }),
{
}

/// Stopping takes out exactly the segment and the signal that starting put in.
pub proof fn stop_undoes_start<B, W>(
    state: ScreenMemoryState<B, W>,
    active: ActiveScreenMemorySegment<B>,
    stop: W,
)
    requires
        !state.recording(),
    ensures
        ({
            let started = state.with_started(active, stop).0;
            &&& started.inner.active == Some(active)
            &&& started.inner.worker_stop == Some(stop)
            &&& !started.stopped().recording()
            &&& started.stopped().inner.worker_stop is None
        }),
{
}

/// A stop beats a rotation that is under way: the segment that the rotation started is handed back,
/// whether the rotation had taken the old segment out before the stop or not.
pub proof fn stop_beats_rotation<B, W>(
    state: ScreenMemoryState<B, W>,
    next: ActiveScreenMemorySegment<B>,
)
    ensures
        state.stopped().with_rotated(next, None) == (state.stopped(), Some(next)),
        state.without_active().stopped().with_rotated(next, None) == (
            state.stopped(),
            Some(next),
        ),
        state.without_active().with_rotated(next, Some(true)) == (
            state.without_active(),
            Some(next),
        ),
{
}

/// A rotation that nothing interferes with replaces the segment and keeps the worker.
pub proof fn rotation_replaces_segment<B, W>(
    state: ScreenMemoryState<B, W>,
    next: ActiveScreenMemorySegment<B>,
)
    ensures
        ({
            let (rotated, refused) = state.without_active().with_rotated(next, Some(false));
            &&& refused is None
            &&& rotated.inner.active == Some(next)
            &&& rotated.inner.worker_stop == state.inner.worker_stop
            &&& rotated.inner.last_error is None
        }),
{
}

/// A segment in progress under an id that the recorder made is found by that id.
pub proof fn active_segment_is_found_by_its_id<B, W>(
    state: ScreenMemoryState<B, W>,
    millis: nat,
    counter: nat,
)
    requires
        state.inner.active matches Some(active) && active.id@ == segment_id_text(millis, counter),
    ensures
        state.is_active_segment(segment_id_text(millis, counter)),
{
    made_id_is_its_own_id(millis, counter);
}

/// On the way to a running recorder no started segment is lost: it is installed or discarded.
pub proof fn ensuring_loses_no_segment<B>(segment: ActiveScreenMemorySegment<B>)
    ensures
        after_ensure_event(EnsureEvent::Started(Ok(segment))) == EnsureAction::Install(segment),
        after_ensure_event(EnsureEvent::Installed(Some(segment))) == EnsureAction::Discard(segment),
{
}

/// In the course of a rotation no segment is lost: the old one is finished, and the next one is
/// installed or discarded.
pub proof fn rotating_loses_no_segment<B>(segment: ActiveScreenMemorySegment<B>)
    ensures
        after_rotate_event(RotateEvent::Taken(Some(segment))) == RotateAction::Finalize(segment),
        after_rotate_event(RotateEvent::Started(Ok(segment))) == RotateAction::Install(segment),
        after_rotate_event(RotateEvent::Installed(Some(segment))) == RotateAction::Discard(segment),
{
}

/// What an attempt to make `segment` the one in progress hands back: nothing, or that segment.
pub open spec fn hands_back<B>(
    refused: Option<ActiveScreenMemorySegment<B>>,
    segment: ActiveScreenMemorySegment<B>,
) -> bool {
    match refused {
        Some(refused) => refused == segment,
        None => true,
    }
}

/// `event` reports on `action`; a segment that is handed back is the one that was to be installed.
pub open spec fn answers_ensure<B>(action: EnsureAction<B>, event: EnsureEvent<B>) -> bool {
    match action {
        EnsureAction::Start => event is Started,
        EnsureAction::Install(active) => event matches EnsureEvent::Installed(refused)
            && hands_back(refused, active),
        EnsureAction::Discard(_) => event is Discarded,
        EnsureAction::StartWorker => event is WorkerStarted,
        EnsureAction::Prune => event is Pruned,
        EnsureAction::Announce => event is Announced,
        EnsureAction::Done | EnsureAction::Unavailable(_) | EnsureAction::Fail(_) => false,
    }
}

/// The events that can still follow, at most.
pub open spec fn ensure_events_left<B>(event: EnsureEvent<B>) -> nat {
    match event {
        EnsureEvent::Asked { .. } => 5,
        EnsureEvent::Started(_) => 4,
        EnsureEvent::Installed(_) => 3,
        EnsureEvent::WorkerStarted => 2,
        EnsureEvent::Pruned(_) => 1,
        EnsureEvent::Discarded => 0,
        EnsureEvent::Announced => 0,
    }
}

/// Bringing the recorder to run comes to an end.
pub proof fn ensuring_ends<B>(event: EnsureEvent<B>, next: EnsureEvent<B>)
    requires
        answers_ensure(after_ensure_event(event), next),
    ensures
        ensure_events_left(next) < ensure_events_left(event),
{
}

/// `events` is the way of the recorder to running, each event reporting on what the one before
/// called for.
pub open spec fn is_ensuring<B>(events: Seq<EnsureEvent<B>>) -> bool {
    &&& events.len() > 0
    &&& events[0] is Asked
    &&& forall|i: int|
        0 < i < events.len() ==> answers_ensure(
            after_ensure_event(events[i - 1]),
            #[trigger] events[i],
        )
}

/// Where `events` install a segment, that is done in `state`, with `stop` as the worker's signal.
pub open spec fn installs_in<B, W>(
    events: Seq<EnsureEvent<B>>,
    state: ScreenMemoryState<B, W>,
    stop: W,
) -> bool {
    forall|i: int|
        0 < i < events.len() ==> (#[trigger] events[i] matches EnsureEvent::Installed(refused)
            ==> (after_ensure_event(events[i - 1]) matches EnsureAction::Install(active)
            ==> refused == state.with_started(active, stop).1))
}

/// A recorder that was brought to run is recording: either a segment was in progress when it was
/// asked to run, or a segment was started and put in place, and whether that one was taken or
/// handed back, a segment is in progress from then on.
pub proof fn ensured_recorder_is_recording<B, W>(
    events: Seq<EnsureEvent<B>>,
    asked: ScreenMemoryState<B, W>,
    installed: ScreenMemoryState<B, W>,
    stop: W,
)
    requires
        is_ensuring(events),
        after_ensure_event(events.last()) is Done,
        events[0] matches EnsureEvent::Asked { recording, .. } && recording == asked.recording(),
        installs_in(events, installed, stop),
    ensures
        ({
            ||| events.len() == 1 && asked.recording()
            ||| exists|active: ActiveScreenMemorySegment<B>|
                {
                    &&& events.len() > 2
                    &&& events[1] == EnsureEvent::Started(Ok(active))
                    &&& events[2] == EnsureEvent::Installed(
                        (#[trigger] installed.with_started(active, stop)).1,
                    )
                    &&& installed.with_started(active, stop).0.recording()
                }
        }),
{
    if events.len() > 1 {
        assert(answers_ensure(after_ensure_event(events[0]), events[1]));
        assert(events[1] is Started);
        assert(events.len() > 2);
        assert(answers_ensure(after_ensure_event(events[1]), events[2]));
        let active = events[1]->Started_0->Ok_0;
        assert(events[1] == EnsureEvent::<B>::Started(Ok(active)));
        assert(events[2] is Installed);
        assert(events[2]->Installed_0 == installed.with_started(active, stop).1);
    }
}

/// A recorder that is brought to run by starting a segment ends up with a worker for it, unless the
/// segment was handed back and discarded.
pub proof fn started_segment_gets_a_worker<B>(events: Seq<EnsureEvent<B>>)
    requires
        is_ensuring(events),
        events.len() > 1,
        after_ensure_event(events.last()) is Done,
    ensures
        ({
            ||| events.len() == 4 && (events[2] matches EnsureEvent::Installed(Some(_)))
                && events[3] is Discarded
            ||| events.len() == 6 && (events[2] matches EnsureEvent::Installed(None))
                && events[3] is WorkerStarted && (events[4] matches EnsureEvent::Pruned(Ok(_)))
                && events[5] is Announced
        }),
{
    assert(answers_ensure(after_ensure_event(events[0]), events[1]));
    assert(events.len() > 2);
    assert(answers_ensure(after_ensure_event(events[1]), events[2]));
    assert(events.len() > 3);
    assert(answers_ensure(after_ensure_event(events[2]), events[3]));
    if events[2]->Installed_0 is Some {
        if events.len() > 4 {
            assert(answers_ensure(after_ensure_event(events[3]), events[4]));
        }
    } else {
        assert(events.len() > 4);
        assert(answers_ensure(after_ensure_event(events[3]), events[4]));
        assert(events.len() > 5);
        assert(answers_ensure(after_ensure_event(events[4]), events[5]));
        if events.len() > 6 {
            assert(answers_ensure(after_ensure_event(events[5]), events[6]));
        }
    }
}

/// `event` reports on `action`; a segment that is handed back is the one that was to be installed.
pub open spec fn answers_rotate<B>(action: RotateAction<B>, event: RotateEvent<B>) -> bool {
    match action {
        RotateAction::Finalize(_) => event is Finalized,
        RotateAction::Store(_) => event is Stored,
        RotateAction::Note(_) => event is Noted,
        RotateAction::Prune => event is Pruned,
        RotateAction::Start => event is Started,
        RotateAction::Install(next) => event matches RotateEvent::Installed(refused)
            && hands_back(refused, next),
        RotateAction::Discard(_) => event is Discarded,
        RotateAction::Announce => event is Announced,
        RotateAction::Done | RotateAction::Fail(_) => false,
    }
}

/// The events that can still follow, at most.
pub open spec fn rotate_events_left<B>(event: RotateEvent<B>) -> nat {
    match event {
        RotateEvent::Taken(_) => 7,
        RotateEvent::Finalized(_) => 6,
        RotateEvent::Stored(_) => 5,
        RotateEvent::Noted => 4,
        RotateEvent::Pruned(_) => 4,
        RotateEvent::Started(_) => 3,
        RotateEvent::Installed(_) => 2,
        RotateEvent::Discarded => 1,
        RotateEvent::Announced => 0,
    }
}

/// A rotation comes to an end.
pub proof fn rotating_ends<B>(event: RotateEvent<B>, next: RotateEvent<B>)
    requires
        answers_rotate(after_rotate_event(event), next),
    ensures
        rotate_events_left(next) < rotate_events_left(event),
{
}

/// `events` is the course of one rotation, each event reporting on what the one before called for.
pub open spec fn is_rotation<B>(events: Seq<RotateEvent<B>>) -> bool {
    &&& events.len() > 0
    &&& events[0] is Taken
    &&& forall|i: int|
        0 < i < events.len() ==> answers_rotate(
            after_rotate_event(events[i - 1]),
            #[trigger] events[i],
        )
}

/// A rotation that is not given up ends with a new segment started, even where the old one could
/// not be finished.
pub proof fn finished_rotation_started_a_segment<B>(events: Seq<RotateEvent<B>>)
    requires
        is_rotation(events),
        after_rotate_event(events.last()) is Done,
    ensures
        exists|i: int|
            0 <= i < events.len() && (#[trigger] events[i] matches RotateEvent::Started(Ok(_))),
{
    let n = events.len() - 1;
    assert(events[n] is Announced);
    assert(events[n - 1] is Installed || events[n - 1] is Discarded);
    let k = if events[n - 1] is Installed {
        n - 1
    } else {
        n - 2
    };
    if k == n - 2 {
        assert(answers_rotate(after_rotate_event(events[n - 2]), events[n - 1]));
    }
    assert(events[k] is Installed);
    assert(answers_rotate(after_rotate_event(events[k - 1]), events[k]));
    assert(events[k - 1] matches RotateEvent::Started(Ok(_)));
}

/// A rotation that finished a segment stores its metadata before the next segment starts.
pub proof fn rotation_stores_before_it_starts<B>(
    events: Seq<RotateEvent<B>>,
    i: int,
    j: int,
)
    requires
        is_rotation(events),
        0 <= i < j < events.len(),
        events[i] matches RotateEvent::Finalized(Ok(_)),
        events[j] is Started,
    ensures
        i + 2 < j,
        events[i + 1] matches RotateEvent::Stored(Ok(_)),
        events[i + 2] matches RotateEvent::Pruned(Ok(_)),
{
    assert(answers_rotate(after_rotate_event(events[i]), events[i + 1]));
    assert(events[i + 1] is Stored);
    assert(answers_rotate(after_rotate_event(events[i + 1]), events[i + 2]));
    assert(events[i + 2] is Pruned);
    assert(answers_rotate(after_rotate_event(events[i + 2]), events[i + 3]));
}

/// `event` reports on `action`, of the same segment.
pub open spec fn answers_stop<B, W>(action: StopAction<B, W>, event: StopEvent<B, W>) -> bool {
    match action {
        StopAction::Raise(_, active) => event == StopEvent::<B, W>::Raised(active),
        StopAction::Finalize(_) => event is Finalized,
        StopAction::Store(segment) => match event {
            StopEvent::Stored(Ok(stored)) => stored == segment,
            StopEvent::Stored(Err(_)) => true,
            _ => false,
        },
        StopAction::Prune(segment) => match event {
            StopEvent::Pruned(Ok(stored)) => stored == segment,
            StopEvent::Pruned(Err(_)) => true,
            _ => false,
        },
        StopAction::Announce(segment) => event == StopEvent::<B, W>::Announced(segment),
        StopAction::Done(_) | StopAction::Fail(_) => false,
    }
}

/// The events that can still follow, at most.
pub open spec fn stop_events_left<B, W>(event: StopEvent<B, W>) -> nat {
    match event {
        StopEvent::Taken(_) => 5,
        StopEvent::Raised(_) => 4,
        StopEvent::Finalized(_) => 3,
        StopEvent::Stored(_) => 2,
        StopEvent::Pruned(_) => 1,
        StopEvent::Announced(_) => 0,
    }
}

/// Stopping comes to an end.
pub proof fn stopping_ends<B, W>(event: StopEvent<B, W>, next: StopEvent<B, W>)
    requires
        answers_stop(after_stop_event(event), next),
    ensures
        stop_events_left(next) < stop_events_left(event),
{
}

/// Stopping a recorder that was started tells the worker of that start to stop.
pub proof fn started_worker_is_told_to_stop<B, W>(
    state: ScreenMemoryState<B, W>,
    active: ActiveScreenMemorySegment<B>,
    stop: W,
    taken: Taken<B, W>,
)
    requires
        !state.recording(),
        taken.active == state.with_started(active, stop).0.inner.active,
        taken.worker_stop == state.with_started(active, stop).0.inner.worker_stop,
    ensures
        after_stop_event(StopEvent::Taken(taken)) == StopAction::Raise(Some(stop), Some(active)),
{
}

/// `events` is the course of one stop, each event reporting on what the one before called for.
pub open spec fn is_stopping<B, W>(events: Seq<StopEvent<B, W>>) -> bool {
    &&& events.len() > 0
    &&& events[0] is Taken
    &&& forall|i: int|
        0 < i < events.len() ==> answers_stop(
            after_stop_event(events[i - 1]),
            #[trigger] events[i],
        )
}

/// The worker's signal is raised before anything else is done about a stop, and whether or not there
/// is a segment to finish.
pub proof fn signal_is_raised_first<B, W>(events: Seq<StopEvent<B, W>>)
    requires
        is_stopping(events),
    ensures
        events[0] matches StopEvent::Taken(taken) && after_stop_event(events[0])
            == StopAction::Raise(taken.worker_stop, taken.active) && (events.len() > 1
            ==> events[1] == StopEvent::<B, W>::Raised(taken.active)),
{
    if events.len() > 1 {
        assert(answers_stop(after_stop_event(events[0]), events[1]));
    }
}

/// A stop that ends with a segment has finished and stored that one, and pruned before it told of
/// it.
pub proof fn stop_reports_the_stored_segment<B, W>(
    events: Seq<StopEvent<B, W>>,
    segment: ScreenMemorySegmentMetadata,
)
    requires
        is_stopping(events),
        after_stop_event(events.last()) == StopAction::<B, W>::Done(Some(segment)),
    ensures
        events.len() == 6,
        events[1] matches StopEvent::Raised(Some(_)),
        events[2] == StopEvent::<B, W>::Finalized(Ok(segment)),
        events[3] == StopEvent::<B, W>::Stored(Ok(segment)),
        events[4] == StopEvent::<B, W>::Pruned(Ok(segment)),
{
    let n = events.len() - 1;
    assert(events[n] == StopEvent::<B, W>::Announced(segment));
    assert(answers_stop(after_stop_event(events[n - 1]), events[n]));
    assert(events[n - 1] == StopEvent::<B, W>::Pruned(Ok(segment)));
    assert(answers_stop(after_stop_event(events[n - 2]), events[n - 1]));
    assert(events[n - 2] == StopEvent::<B, W>::Stored(Ok(segment)));
    assert(answers_stop(after_stop_event(events[n - 3]), events[n - 2]));
    assert(events[n - 3] == StopEvent::<B, W>::Finalized(Ok(segment)));
    assert(answers_stop(after_stop_event(events[n - 4]), events[n - 3]));
    assert(events[n - 4] matches StopEvent::Raised(Some(_)));
    assert(answers_stop(after_stop_event(events[n - 5]), events[n - 4]));
    assert(events[n - 5] is Taken);
    if n > 5 {
        assert(answers_stop(after_stop_event(events[n - 6]), events[n - 5]));
    }
}

/// Each event on the way to a running recorder has its one answer.
pub proof fn each_ensure_event_has_its_answer<B>(
    segment: ActiveScreenMemorySegment<B>,
    recording: bool,
    err: String,
)
    ensures
        after_ensure_event(EnsureEvent::<B>::Asked { available: false, recording })
            == EnsureAction::<B>::Unavailable("Screen Memory capture is currently macOS-only."),
        after_ensure_event(EnsureEvent::<B>::Asked { available: true, recording: true }) is Done,
        after_ensure_event(EnsureEvent::<B>::Asked { available: true, recording: false }) is Start,
        after_ensure_event(EnsureEvent::Started(Ok(segment))) == EnsureAction::Install(segment),
        after_ensure_event(EnsureEvent::<B>::Started(Err(err))) == EnsureAction::<B>::Fail(err),
        after_ensure_event(EnsureEvent::Installed(Some(segment))) == EnsureAction::Discard(segment),
        after_ensure_event(EnsureEvent::<B>::Installed(None)) is StartWorker,
        after_ensure_event(EnsureEvent::<B>::Discarded) is Done,
        after_ensure_event(EnsureEvent::<B>::WorkerStarted) is Prune,
        after_ensure_event(EnsureEvent::<B>::Pruned(Ok(()))) is Announce,
        after_ensure_event(EnsureEvent::<B>::Pruned(Err(err))) == EnsureAction::<B>::Fail(err),
        after_ensure_event(EnsureEvent::<B>::Announced) is Done,
{
}

/// Each event of a rotation has its one answer.
pub proof fn each_rotate_event_has_its_answer<B>(
    active: ActiveScreenMemorySegment<B>,
    segment: ScreenMemorySegmentMetadata,
    err: String,
)
    ensures
        after_rotate_event(RotateEvent::Taken(Some(active))) == RotateAction::Finalize(active),
        after_rotate_event(RotateEvent::<B>::Taken(None)) is Start,
        after_rotate_event(RotateEvent::<B>::Finalized(Ok(segment))) == RotateAction::<B>::Store(
            segment,
        ),
        after_rotate_event(RotateEvent::<B>::Finalized(Err(err))) == RotateAction::<B>::Note(err),
        after_rotate_event(RotateEvent::<B>::Noted) is Start,
        after_rotate_event(RotateEvent::<B>::Stored(Ok(()))) is Prune,
        after_rotate_event(RotateEvent::<B>::Stored(Err(err))) == RotateAction::<B>::Fail(err),
        after_rotate_event(RotateEvent::<B>::Pruned(Ok(()))) is Start,
        after_rotate_event(RotateEvent::<B>::Pruned(Err(err))) == RotateAction::<B>::Fail(err),
        after_rotate_event(RotateEvent::Started(Ok(active))) == RotateAction::Install(active),
        after_rotate_event(RotateEvent::<B>::Started(Err(err))) == RotateAction::<B>::Fail(err),
        after_rotate_event(RotateEvent::Installed(Some(active))) == RotateAction::Discard(active),
        after_rotate_event(RotateEvent::<B>::Installed(None)) is Announce,
        after_rotate_event(RotateEvent::<B>::Discarded) is Announce,
        after_rotate_event(RotateEvent::<B>::Announced) is Done,
{
}

/// Each event of a stop has its one answer.
pub proof fn each_stop_event_has_its_answer<B, W>(
    taken: Taken<B, W>,
    active: ActiveScreenMemorySegment<B>,
    segment: ScreenMemorySegmentMetadata,
    err: String,
)
    ensures
        after_stop_event(StopEvent::Taken(taken)) == StopAction::Raise(
            taken.worker_stop,
            taken.active,
        ),
        after_stop_event(StopEvent::<B, W>::Raised(Some(active))) == StopAction::<B, W>::Finalize(
            active,
        ),
        after_stop_event(StopEvent::<B, W>::Raised(None)) == StopAction::<B, W>::Done(None),
        after_stop_event(StopEvent::<B, W>::Finalized(Ok(segment))) == StopAction::<B, W>::Store(
            segment,
        ),
        after_stop_event(StopEvent::<B, W>::Finalized(Err(err))) == StopAction::<B, W>::Fail(err),
        after_stop_event(StopEvent::<B, W>::Stored(Ok(segment))) == StopAction::<B, W>::Prune(
            segment,
        ),
        after_stop_event(StopEvent::<B, W>::Stored(Err(err))) == StopAction::<B, W>::Fail(err),
        after_stop_event(StopEvent::<B, W>::Pruned(Ok(segment))) == StopAction::<B, W>::Announce(
            segment,
        ),
        after_stop_event(StopEvent::<B, W>::Pruned(Err(err))) == StopAction::<B, W>::Fail(err),
        after_stop_event(StopEvent::<B, W>::Announced(segment)) == StopAction::<B, W>::Done(
            Some(segment),
        ),
{
}

/// What each change of the state does to its three parts.
pub proof fn state_changes_part_by_part<B, W>(
    state: ScreenMemoryState<B, W>,
    segment: ActiveScreenMemorySegment<B>,
    stop: W,
    stop_raised: Option<bool>,
    id: Seq<char>,
)
    ensures
        state.recording() <==> state.inner.active is Some,
        state.recording() ==> state.with_started(segment, stop) == (state, Some(segment)),
        !state.recording() ==> {
            let (started, refused) = state.with_started(segment, stop);
            &&& refused is None
            &&& started.inner.active == Some(segment)
            &&& started.inner.worker_stop == Some(stop)
            &&& started.inner.last_error is None
        },
        stop_raised == Some(false) && !state.recording() ==> {
            let (rotated, refused) = state.with_rotated(segment, stop_raised);
            &&& refused is None
            &&& rotated.inner.active == Some(segment)
            &&& rotated.inner.worker_stop == state.inner.worker_stop
            &&& rotated.inner.last_error is None
        },
        stop_raised != Some(false) || state.recording() ==> state.with_rotated(segment, stop_raised)
            == (state, Some(segment)),
        state.without_active().inner.active is None,
        state.without_active().inner.worker_stop == state.inner.worker_stop,
        state.without_active().inner.last_error == state.inner.last_error,
        state.stopped().inner.active is None,
        state.stopped().inner.worker_stop is None,
        state.stopped().inner.last_error == state.inner.last_error,
        state.is_active_segment(id) <==> (state.inner.active matches Some(active) && active.id@
            == sanitized(id)),
{
}

} // verus!
