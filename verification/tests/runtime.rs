use screen_memory::runtime::{
    ensure_running, rotate_segment, stop_active_segment, EnsureAction, EnsureEvent, RotateAction,
    RotateEvent, ScreenMemoryState, StopAction, StopEvent, Taken,
};
use screen_memory::segment::{
    segment_id, ActiveScreenMemorySegment, ScreenMemorySegmentMetadata,
};

fn active(id: &str) -> ActiveScreenMemorySegment<u8> {
    ActiveScreenMemorySegment {
        id: id.to_string(),
        path: format!("/store/{id}.mp4"),
        mime_type: "video/mp4".to_string(),
        backend: 1,
        started_at_iso: String::new(),
        width: None,
        height: None,
    }
}

fn finished(id: &str) -> ScreenMemorySegmentMetadata {
    ScreenMemorySegmentMetadata {
        id: id.to_string(),
        path: String::new(),
        file_name: String::new(),
        mime_type: String::new(),
        started_at: String::new(),
        ended_at: String::new(),
        duration_ms: 0,
        width: None,
        height: None,
        bytes: 1,
        corrupt: false,
        error: None,
    }
}

fn state() -> ScreenMemoryState<u8, &'static str> {
    ScreenMemoryState::default()
}

fn active_id<'a>(state: &'a ScreenMemoryState<u8, &'static str>) -> Option<&'a str> {
    state.inner.active.as_ref().map(|active| active.id.as_str())
}

#[test]
fn a_new_recorder_does_nothing() {
    let state = state();
    assert!(!state.is_recording());
    assert!(state.inner.active.is_none());
    assert!(state.inner.worker_stop.is_none());
    assert_eq!(state.inner.last_error, None);
}

#[test]
fn a_start_clears_the_last_error() {
    let mut state = state();
    state.record_error("full".to_string());
    assert_eq!(state.inner.last_error.as_deref(), Some("full"));
    assert!(state.install_started(active("a"), "stop").is_none());
    assert!(state.is_recording());
    assert_eq!(active_id(&state), Some("a"));
    assert_eq!(state.inner.worker_stop, Some("stop"));
    assert_eq!(state.inner.last_error, None);
}

#[test]
fn a_second_start_is_handed_back() {
    let mut state = state();
    assert!(state.install_started(active("a"), "first").is_none());
    state.record_error("kept".to_string());
    let refused = state.install_started(active("b"), "second");
    assert_eq!(refused.map(|active| active.id).as_deref(), Some("b"));
    assert_eq!(active_id(&state), Some("a"));
    assert_eq!(state.inner.worker_stop, Some("first"));
    assert_eq!(state.inner.last_error.as_deref(), Some("kept"));
}

#[test]
fn a_stop_takes_out_what_a_start_put_in() {
    let mut state = state();
    state.install_started(active("a"), "stop");
    state.record_error("kept".to_string());
    let taken = state.take_for_stop();
    assert_eq!(taken.active.map(|active| active.id).as_deref(), Some("a"));
    assert_eq!(taken.worker_stop, Some("stop"));
    assert!(!state.is_recording());
    assert!(state.inner.worker_stop.is_none());
    assert_eq!(state.inner.last_error.as_deref(), Some("kept"));
    let again = state.take_for_stop();
    assert!(again.active.is_none() && again.worker_stop.is_none());
}

#[test]
fn a_rotation_replaces_the_segment() {
    let mut state = state();
    state.install_started(active("a"), "stop");
    state.record_error("old".to_string());
    assert_eq!(state.take_active().map(|active| active.id).as_deref(), Some("a"));
    assert!(!state.is_recording());
    assert_eq!(state.inner.worker_stop, Some("stop"));
    assert!(state.install_rotated(active("b"), Some(false)).is_none());
    assert_eq!(active_id(&state), Some("b"));
    assert_eq!(state.inner.worker_stop, Some("stop"));
    assert_eq!(state.inner.last_error, None);
}

#[test]
fn a_stop_beats_a_rotation() {
    let mut state = state();
    state.install_started(active("a"), "stop");
    state.take_active();
    state.take_for_stop();
    let refused = state.install_rotated(active("b"), None);
    assert_eq!(refused.map(|active| active.id).as_deref(), Some("b"));
    assert!(!state.is_recording());
    let refused = state.install_rotated(active("c"), Some(true));
    assert_eq!(refused.map(|active| active.id).as_deref(), Some("c"));
    assert!(!state.is_recording());
}

#[test]
fn a_rotation_does_not_displace_another_segment() {
    let mut state = state();
    state.install_started(active("a"), "stop");
    let refused = state.install_rotated(active("b"), Some(false));
    assert_eq!(refused.map(|active| active.id).as_deref(), Some("b"));
    assert_eq!(active_id(&state), Some("a"));
}

#[test]
fn the_segment_in_progress_is_found_by_its_id() {
    let mut state = state();
    let id = segment_id(1_704_067_200_000, 3);
    assert!(!state.stop_active_segment_if_matches(&id));
    state.install_started(active(&id), "stop");
    assert!(state.stop_active_segment_if_matches(&id));
    assert!(state.stop_active_segment_if_matches(&format!("/{id}.")));
    assert!(!state.stop_active_segment_if_matches("segment-1-3"));
}

#[test]
fn a_recorder_is_brought_to_run() {
    let step = |event: EnsureEvent<u8>| ensure_running(event);
    assert!(matches!(
        step(EnsureEvent::Asked { available: true, recording: false }),
        EnsureAction::Start
    ));
    assert!(matches!(
        step(EnsureEvent::Started(Ok(active("a")))),
        EnsureAction::Install(segment) if segment.id == "a"
    ));
    assert!(matches!(step(EnsureEvent::Installed(None)), EnsureAction::StartWorker));
    assert!(matches!(step(EnsureEvent::WorkerStarted), EnsureAction::Prune));
    assert!(matches!(step(EnsureEvent::Pruned(Ok(()))), EnsureAction::Announce));
    assert!(matches!(step(EnsureEvent::Announced), EnsureAction::Done));
}

#[test]
fn a_recorder_that_cannot_run_says_so() {
    let step = |event: EnsureEvent<u8>| ensure_running(event);
    for recording in [false, true] {
        assert!(matches!(
            step(EnsureEvent::Asked { available: false, recording }),
            EnsureAction::Unavailable("Screen Memory capture is currently macOS-only.")
        ));
    }
    assert!(matches!(
        step(EnsureEvent::Asked { available: true, recording: true }),
        EnsureAction::Done
    ));
    assert!(matches!(
        step(EnsureEvent::Started(Err("denied".to_string()))),
        EnsureAction::Fail(reason) if reason == "denied"
    ));
    assert!(matches!(
        step(EnsureEvent::Installed(Some(active("b")))),
        EnsureAction::Discard(segment) if segment.id == "b"
    ));
    assert!(matches!(step(EnsureEvent::Discarded), EnsureAction::Done));
    assert!(matches!(
        step(EnsureEvent::Pruned(Err("io".to_string()))),
        EnsureAction::Fail(reason) if reason == "io"
    ));
}

#[test]
fn a_rotation_takes_its_course() {
    let step = |event: RotateEvent<u8>| rotate_segment(event);
    assert!(matches!(
        step(RotateEvent::Taken(Some(active("a")))),
        RotateAction::Finalize(segment) if segment.id == "a"
    ));
    assert!(matches!(
        step(RotateEvent::Finalized(Ok(finished("a")))),
        RotateAction::Store(segment) if segment.id == "a"
    ));
    assert!(matches!(step(RotateEvent::Stored(Ok(()))), RotateAction::Prune));
    assert!(matches!(step(RotateEvent::Pruned(Ok(()))), RotateAction::Start));
    assert!(matches!(
        step(RotateEvent::Started(Ok(active("b")))),
        RotateAction::Install(segment) if segment.id == "b"
    ));
    assert!(matches!(step(RotateEvent::Installed(None)), RotateAction::Announce));
    assert!(matches!(step(RotateEvent::Announced), RotateAction::Done));
}

#[test]
fn a_rotation_goes_on_without_the_old_segment() {
    let step = |event: RotateEvent<u8>| rotate_segment(event);
    assert!(matches!(step(RotateEvent::Taken(None)), RotateAction::Start));
    assert!(matches!(
        step(RotateEvent::Finalized(Err("empty".to_string()))),
        RotateAction::Note(reason) if reason == "empty"
    ));
    assert!(matches!(step(RotateEvent::Noted), RotateAction::Start));
    assert!(matches!(
        step(RotateEvent::Installed(Some(active("c")))),
        RotateAction::Discard(segment) if segment.id == "c"
    ));
    assert!(matches!(step(RotateEvent::Discarded), RotateAction::Announce));
}

#[test]
fn a_rotation_is_given_up_on_errors() {
    let step = |event: RotateEvent<u8>| rotate_segment(event);
    for event in [
        RotateEvent::Stored(Err("io".to_string())),
        RotateEvent::Pruned(Err("io".to_string())),
        RotateEvent::Started(Err("io".to_string())),
    ] {
        assert!(matches!(step(event), RotateAction::Fail(reason) if reason == "io"));
    }
}

#[test]
fn a_recorder_is_stopped() {
    let step = |event: StopEvent<u8, &'static str>| stop_active_segment(event);
    assert!(matches!(
        step(StopEvent::Taken(Taken { active: Some(active("a")), worker_stop: Some("stop") })),
        StopAction::Raise(Some("stop"), Some(segment)) if segment.id == "a"
    ));
    assert!(matches!(
        step(StopEvent::Taken(Taken { active: None, worker_stop: Some("stop") })),
        StopAction::Raise(Some("stop"), None)
    ));
    assert!(matches!(step(StopEvent::Raised(None)), StopAction::Done(None)));
    assert!(matches!(
        step(StopEvent::Raised(Some(active("a")))),
        StopAction::Finalize(segment) if segment.id == "a"
    ));
    assert!(matches!(
        step(StopEvent::Finalized(Ok(finished("a")))),
        StopAction::Store(segment) if segment.id == "a"
    ));
    assert!(matches!(
        step(StopEvent::Stored(Ok(finished("a")))),
        StopAction::Prune(segment) if segment.id == "a"
    ));
    assert!(matches!(
        step(StopEvent::Pruned(Ok(finished("a")))),
        StopAction::Announce(segment) if segment.id == "a"
    ));
    assert!(matches!(
        step(StopEvent::Announced(finished("a"))),
        StopAction::Done(Some(segment)) if segment.id == "a"
    ));
}

#[test]
fn stopping_fails_on_errors() {
    let step = |event: StopEvent<u8, &'static str>| stop_active_segment(event);
    for event in [
        StopEvent::Finalized(Err("io".to_string())),
        StopEvent::Stored(Err("io".to_string())),
        StopEvent::Pruned(Err("io".to_string())),
    ] {
        assert!(matches!(step(event), StopAction::Fail(reason) if reason == "io"));
    }
}

#[test]
fn whatever_comes_of_a_start_a_segment_is_in_progress() {
    let mut idle = state();
    let mut busy = state();
    busy.install_started(active("x"), "first");
    for state in [&mut idle, &mut busy] {
        let mut event = EnsureEvent::Asked { available: true, recording: false };
        let mut steps = 0;
        loop {
            steps += 1;
            event = match ensure_running(event) {
                EnsureAction::Start => EnsureEvent::Started(Ok(active("a"))),
                EnsureAction::Install(segment) => {
                    EnsureEvent::Installed(state.install_started(segment, "stop"))
                }
                EnsureAction::Discard(segment) => {
                    assert_eq!(segment.id, "a");
                    EnsureEvent::Discarded
                }
                EnsureAction::StartWorker => EnsureEvent::WorkerStarted,
                EnsureAction::Prune => EnsureEvent::Pruned(Ok(())),
                EnsureAction::Announce => EnsureEvent::Announced,
                EnsureAction::Done => break,
                EnsureAction::Unavailable(_) | EnsureAction::Fail(_) => panic!("not running"),
            };
        }
        assert!(state.is_recording());
        assert!(steps == 4 || steps == 6);
    }
}

#[test]
fn the_worker_of_a_start_is_told_to_stop() {
    let mut state = state();
    state.install_started(active("a"), "stop");
    match stop_active_segment(StopEvent::Taken(state.take_for_stop())) {
        StopAction::Raise(stop, segment) => {
            assert_eq!(stop, Some("stop"));
            assert_eq!(segment.map(|segment| segment.id).as_deref(), Some("a"));
        }
        _ => panic!("not raised"),
    }
}
