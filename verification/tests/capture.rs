use screen_memory::capture::{
    after_start_attempt, check_start, macos_only_message, plan_recording, screen_memory_available,
    start_new_segment, DiskSpace, StartAction, StartAttempt, StartedBackend, CAPTURE_TOOL,
};

fn space(free: Option<u64>) -> DiskSpace {
    DiskSpace {
        free,
        required: 500,
        free_text: "12 MB".to_string(),
        required_text: "500 MB".to_string(),
    }
}

fn started(width: Option<u32>, height: Option<u32>) -> StartedBackend<&'static str> {
    StartedBackend {
        backend: "handle",
        path: "/store/x.mp4".to_string(),
        started_at_iso: "2024-01-01T00:00:00+00:00".to_string(),
        width,
        height,
    }
}

#[test]
fn recording_needs_macos_and_its_tool() {
    assert_eq!(CAPTURE_TOOL, "/usr/sbin/screencapture");
    assert!(screen_memory_available(true, true));
    assert!(!screen_memory_available(true, false));
    assert!(!screen_memory_available(false, true));
    assert!(!screen_memory_available(false, false));
}

#[test]
fn other_systems_are_refused() {
    let message = "Screen Memory capture is currently macOS-only.";
    assert_eq!(macos_only_message(), message);
    assert_eq!(check_start(false, &space(None)), Err(message.to_string()));
    assert_eq!(check_start(false, &space(Some(0))), Err(message.to_string()));
}

#[test]
fn a_full_disk_is_refused() {
    assert_eq!(
        check_start(true, &space(Some(499))),
        Err(
            "Not enough disk space to start Screen Memory. Free up at least 500 MB and try again \
             (currently 12 MB free)."
                .to_string()
        )
    );
    assert_eq!(check_start(true, &space(Some(500))), Ok(()));
    assert_eq!(check_start(true, &space(None)), Ok(()));
}

#[test]
fn a_recording_has_a_file_for_each_way() {
    let plan = plan_recording("segment-1-2".to_string());
    assert_eq!(plan.id, "segment-1-2");
    assert_eq!(plan.mp4_file, "segment-1-2.mp4");
    assert_eq!(plan.mov_file, "segment-1-2.mov");
}

#[test]
fn a_new_segment_is_planned_where_it_may_start() {
    let plan = match start_new_segment(true, &space(Some(1000)), 8) {
        Ok(plan) => plan,
        Err(message) => panic!("{message}"),
    };
    assert!(plan.id.starts_with("segment-1"));
    assert!(plan.id.ends_with("-8"));
    assert_eq!(plan.mp4_file, format!("{}.mp4", plan.id));
    assert!(start_new_segment(false, &space(Some(1000)), 8).is_err());
    assert!(start_new_segment(true, &space(Some(1)), 8).is_err());
}

#[test]
fn screen_capture_kit_records_mp4() {
    let attempt = StartAttempt::ScreenCaptureKit(Ok(started(Some(800), None)));
    match after_start_attempt("id", (Some(1), Some(2)), attempt) {
        StartAction::Recording(active) => {
            assert_eq!(active.id, "id");
            assert_eq!(active.path, "/store/x.mp4");
            assert_eq!(active.mime_type, "video/mp4");
            assert_eq!(active.backend, "handle");
            assert_eq!(active.started_at_iso, "2024-01-01T00:00:00+00:00");
            assert_eq!((active.width, active.height), (Some(800), Some(2)));
        }
        _ => panic!("not recording"),
    }
}

#[test]
fn the_capture_tool_is_the_second_way() {
    let failed: StartAttempt<u8> = StartAttempt::ScreenCaptureKit(Err("no permission".to_string()));
    assert!(matches!(
        after_start_attempt("id", (None, None), failed),
        StartAction::TryCaptureTool(reason) if reason == "no permission"
    ));
    let attempt = StartAttempt::CaptureTool(Ok(started(None, Some(600))));
    match after_start_attempt("id", (None, None), attempt) {
        StartAction::Recording(active) => {
            assert_eq!(active.mime_type, "video/quicktime");
            assert_eq!((active.width, active.height), (None, Some(600)));
        }
        _ => panic!("not recording"),
    }
}

#[test]
fn without_a_second_way_starting_fails() {
    let failed: StartAttempt<u8> = StartAttempt::CaptureTool(Err("no tool".to_string()));
    assert!(matches!(
        after_start_attempt("id", (None, None), failed),
        StartAction::Failed(reason) if reason == "no tool"
    ));
}
