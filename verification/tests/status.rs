use screen_memory::config::{
    screen_memory_pause, screen_memory_start, screen_memory_stop, ScreenMemoryConfig,
};
use screen_memory::runtime::ScreenMemoryState;
use screen_memory::segment::{ActiveScreenMemorySegment, ScreenMemorySegmentMetadata};
use screen_memory::status::{
    build_status, runtime_state, screen_memory_status, show_active, snapshot, RuntimeSnapshot, ScreenMemoryRuntimeState,
    SCREEN_MEMORY_EVENT, STATUS_SEGMENTS,
};

fn settings(enabled: bool, paused: bool) -> ScreenMemoryConfig {
    ScreenMemoryConfig {
        enabled,
        paused,
        retention_hours: 0,
        max_bytes: 1_000_000_000,
        segment_seconds: 60,
        sample_interval_seconds: 5,
    }
}

fn active() -> ActiveScreenMemorySegment<u8> {
    ActiveScreenMemorySegment {
        id: "a".to_string(),
        path: "/store/a.mp4".to_string(),
        mime_type: "video/mp4".to_string(),
        backend: 1,
        started_at_iso: "then".to_string(),
        width: Some(3),
        height: Some(4),
    }
}

fn segment(id: &str, ended_at: &str) -> ScreenMemorySegmentMetadata {
    ScreenMemorySegmentMetadata {
        id: id.to_string(),
        path: String::new(),
        file_name: String::new(),
        mime_type: String::new(),
        started_at: String::new(),
        ended_at: ended_at.to_string(),
        duration_ms: 0,
        width: None,
        height: None,
        bytes: 1,
        corrupt: false,
        error: None,
    }
}

#[test]
fn changes_have_a_name() {
    assert_eq!(SCREEN_MEMORY_EVENT, "clips:screen-memory-changed");
    assert_eq!(STATUS_SEGMENTS, 5);
}

#[test]
fn states_come_in_order() {
    let state = |enabled, paused, recording| runtime_state(&settings(enabled, paused), recording);
    assert_eq!(state(false, false, false), ScreenMemoryRuntimeState::Disabled);
    assert_eq!(state(false, true, true), ScreenMemoryRuntimeState::Disabled);
    assert_eq!(state(true, false, true), ScreenMemoryRuntimeState::Recording);
    assert_eq!(state(true, true, true), ScreenMemoryRuntimeState::Recording);
    assert_eq!(state(true, true, false), ScreenMemoryRuntimeState::Paused);
    assert_eq!(state(true, false, false), ScreenMemoryRuntimeState::Idle);
}

#[test]
fn commands_show_in_the_state() {
    let current = settings(false, true);
    assert_eq!(
        runtime_state(&screen_memory_start(current), false),
        ScreenMemoryRuntimeState::Idle
    );
    assert_eq!(
        runtime_state(&screen_memory_pause(current), false),
        ScreenMemoryRuntimeState::Paused
    );
    assert_eq!(
        runtime_state(&screen_memory_stop(current), false),
        ScreenMemoryRuntimeState::Disabled
    );
}

#[test]
fn the_segment_in_progress_is_shown() {
    let shown = show_active(&active(), 1234);
    assert_eq!(shown.id, "a");
    assert_eq!(shown.path, "/store/a.mp4");
    assert_eq!(shown.mime_type, "video/mp4");
    assert_eq!(shown.started_at, "then");
    assert_eq!(shown.duration_ms, 1234);
    assert_eq!((shown.width, shown.height), (Some(3), Some(4)));
}

#[test]
fn a_look_at_the_state_changes_nothing() {
    let mut state: ScreenMemoryState<u8, ()> = ScreenMemoryState::default();
    let empty = snapshot(&state, 9);
    assert!(empty.active_segment.is_none() && empty.last_error.is_none());
    state.install_started(active(), ());
    state.record_error("full".to_string());
    let seen = snapshot(&state, 9);
    assert_eq!(seen.active_segment.map(|shown| shown.duration_ms), Some(9));
    assert_eq!(seen.last_error.as_deref(), Some("full"));
    assert!(state.is_recording());
}

#[test]
fn a_status_tells_everything() {
    let found = (0..7).map(|n| segment(&format!("{n}"), &format!("{n}"))).collect();
    let status = build_status(
        settings(true, false),
        true,
        "/store".to_string(),
        RuntimeSnapshot {
            active_segment: Some(show_active(&active(), 5)),
            last_error: Some("full".to_string()),
        },
        found,
    );
    assert!(status.available);
    assert_eq!(status.state, ScreenMemoryRuntimeState::Recording);
    assert_eq!(status.config, ScreenMemoryConfig { retention_hours: 1, ..settings(true, false) });
    assert_eq!(status.storage_dir, "/store");
    assert_eq!(status.active_segment.map(|shown| shown.id).as_deref(), Some("a"));
    let ids: Vec<&str> =
        status.recent_segments.iter().map(|segment| segment.id.as_str()).collect();
    assert_eq!(ids, vec!["6", "5", "4", "3", "2"]);
    assert_eq!(status.last_error.as_deref(), Some("full"));
}

#[test]
fn a_status_without_a_segment_is_idle() {
    let status = build_status(
        settings(true, false),
        false,
        String::new(),
        RuntimeSnapshot { active_segment: None, last_error: None },
        Vec::new(),
    );
    assert!(!status.available);
    assert_eq!(status.state, ScreenMemoryRuntimeState::Idle);
    assert!(status.active_segment.is_none() && status.recent_segments.is_empty());
}

#[test]
fn a_status_goes_by_the_state() {
    let mut state: ScreenMemoryState<u8, ()> = ScreenMemoryState::default();
    state.install_started(active(), ());
    state.record_error("full".to_string());
    let status = screen_memory_status(
        settings(true, true),
        true,
        "/store".to_string(),
        &state,
        77,
        vec![segment("x", "1")],
    );
    assert_eq!(status.state, ScreenMemoryRuntimeState::Recording);
    assert_eq!(status.active_segment.map(|shown| shown.duration_ms), Some(77));
    assert_eq!(status.last_error.as_deref(), Some("full"));
    assert_eq!(status.recent_segments.len(), 1);
    let idle: ScreenMemoryState<u8, ()> = ScreenMemoryState::default();
    let status =
        screen_memory_status(settings(true, true), true, String::new(), &idle, 77, Vec::new());
    assert_eq!(status.state, ScreenMemoryRuntimeState::Paused);
    assert!(status.active_segment.is_none());
}
