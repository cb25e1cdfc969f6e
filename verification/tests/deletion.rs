use screen_memory::catalog::{DeleteRequest, ScreenMemoryDeleteResult};
use screen_memory::config::ScreenMemoryConfig;
use screen_memory::deletion::{
    files_to_sweep, proceed_with_deletion, DeleteAction, DeleteEvent, FolderItem,
};

fn settings() -> ScreenMemoryConfig {
    ScreenMemoryConfig {
        enabled: false,
        paused: false,
        retention_hours: 3,
        max_bytes: 4,
        segment_seconds: 60,
        sample_interval_seconds: 5,
    }
}

fn result() -> ScreenMemoryDeleteResult {
    ScreenMemoryDeleteResult { deleted_segments: 2, deleted_bytes: 9 }
}

fn one(is_active: bool) -> DeleteEvent {
    DeleteEvent::Asked { request: DeleteRequest::One("a".to_string()), is_active }
}

fn item(path: &str, is_file: bool) -> FolderItem {
    FolderItem { path: path.to_string(), is_file }
}

#[test]
fn a_segment_in_progress_is_stopped_first() {
    assert!(matches!(
        proceed_with_deletion(one(true)),
        DeleteAction::Stop(id) if id == "a"
    ));
    assert!(matches!(
        proceed_with_deletion(DeleteEvent::Stopped { id: "a".to_string(), outcome: Ok(()) }),
        DeleteAction::DeleteSegment(id) if id == "a"
    ));
    assert!(matches!(
        proceed_with_deletion(one(false)),
        DeleteAction::DeleteSegment(id) if id == "a"
    ));
    assert!(matches!(
        proceed_with_deletion(DeleteEvent::SegmentDeleted(Ok(result()))),
        DeleteAction::Announce(told) if told == result()
    ));
    assert!(matches!(
        proceed_with_deletion(DeleteEvent::Announced(result())),
        DeleteAction::Done(told) if told == result()
    ));
}

#[test]
fn everything_goes_after_the_settings_are_stored() {
    for is_active in [false, true] {
        assert!(matches!(
            proceed_with_deletion(DeleteEvent::Asked {
                request: DeleteRequest::All(settings()),
                is_active,
            }),
            DeleteAction::Store(config) if config == settings()
        ));
    }
    assert!(matches!(
        proceed_with_deletion(DeleteEvent::Stored(Ok(()))),
        DeleteAction::RemoveSegments
    ));
    assert!(matches!(
        proceed_with_deletion(DeleteEvent::SegmentsRemoved(Ok(result()))),
        DeleteAction::Sweep(told) if told == result()
    ));
    assert!(matches!(
        proceed_with_deletion(DeleteEvent::Swept(Ok(result()))),
        DeleteAction::Announce(told) if told == result()
    ));
}

#[test]
fn a_failed_step_ends_the_deletion() {
    for event in [
        DeleteEvent::Stopped { id: "a".to_string(), outcome: Err("io".to_string()) },
        DeleteEvent::Stored(Err("io".to_string())),
        DeleteEvent::SegmentDeleted(Err("io".to_string())),
        DeleteEvent::SegmentsRemoved(Err("io".to_string())),
        DeleteEvent::Swept(Err("io".to_string())),
    ] {
        assert!(matches!(
            proceed_with_deletion(event),
            DeleteAction::Fail(reason) if reason == "io"
        ));
    }
}

#[test]
fn a_sweep_takes_every_regular_file() {
    let items = vec![
        item("/store/events.jsonl", true),
        item("/store/folder", false),
        item("/store/orphan.mp4", true),
        item("/store/broken.json", true),
    ];
    let swept = files_to_sweep(&items);
    assert_eq!(swept, vec!["/store/events.jsonl", "/store/orphan.mp4", "/store/broken.json"]);
    let left: Vec<FolderItem> =
        items.into_iter().filter(|item| !swept.contains(&item.path)).collect();
    assert_eq!(left.len(), 1);
    assert_eq!(left[0].path, "/store/folder");
    assert!(files_to_sweep(&left).is_empty());
}
