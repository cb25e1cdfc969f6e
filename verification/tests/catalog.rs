use screen_memory::catalog::{
    is_metadata_file, prune_choices, prune_segments,
    prune_segments_at, recent_segments, scan_folder, screen_memory_delete,
    screen_memory_delete_all, screen_memory_recent_segments,
    DeleteRequest, FolderEntry, PruneAction, Pruning, ScreenMemoryDeleteResult, SegmentAge, SCREEN_MEMORY_DIR,
    SCREEN_MEMORY_EVENTS_JSONL,
};
use screen_memory::clock::{current_time, minutes_before, now_iso, write_stamp, UtcTime};
use screen_memory::config::ScreenMemoryConfig;
use screen_memory::order::{reversed, sort_newest_first};
use screen_memory::segment::ScreenMemorySegmentMetadata;

fn segment(id: &str, ended_at: &str, bytes: u64) -> ScreenMemorySegmentMetadata {
    ScreenMemorySegmentMetadata {
        id: id.to_string(),
        path: format!("/media/{id}.mp4"),
        file_name: format!("{id}.mp4"),
        mime_type: "video/mp4".to_string(),
        started_at: "2024-01-01T00:00:00+00:00".to_string(),
        ended_at: ended_at.to_string(),
        duration_ms: 1,
        width: None,
        height: None,
        bytes,
        corrupt: false,
        error: None,
    }
}

fn entry(file_name: &str, readable: bool, media_exists: bool) -> FolderEntry {
    FolderEntry {
        path: format!("/store/{file_name}"),
        file_name: file_name.to_string(),
        metadata: if readable { Some(segment(file_name, "2024", 1)) } else { None },
        media_exists,
    }
}

fn settings(retention_hours: u32, max_bytes: u64) -> ScreenMemoryConfig {
    ScreenMemoryConfig {
        enabled: true,
        paused: false,
        retention_hours,
        max_bytes,
        segment_seconds: 60,
        sample_interval_seconds: 5,
    }
}

fn ids(segments: &[ScreenMemorySegmentMetadata]) -> Vec<&str> {
    segments.iter().map(|segment| segment.id.as_str()).collect()
}

/// 2024-01-02T00:00:00Z
const NOW: UtcTime = UtcTime { secs: 1_704_153_600, nanos: 0 };

#[test]
fn storage_has_its_names() {
    assert_eq!(SCREEN_MEMORY_DIR, "screen-memory");
    assert_eq!(SCREEN_MEMORY_EVENTS_JSONL, "events.jsonl");
}

#[test]
fn metadata_files_are_told_by_their_extension() {
    for (name, expected) in [
        ("a.json", true),
        ("a.b.json", true),
        (".json", false),
        ("json", false),
        ("a.JSON", false),
        ("a.json.bak", false),
        ("a.mp4", false),
        ("a.mov", false),
        ("events.jsonl", false),
    ] {
        assert_eq!(is_metadata_file(name), expected, "{name}");
    }
}

#[test]
fn a_scan_sorts_files_out() {
    let scan = scan_folder(vec![
        entry("a.json", true, true),
        entry("b.json", true, false),
        entry("c.json", false, true),
        entry("d.mp4", true, true),
        entry("events.jsonl", true, false),
        entry("e.json", true, true),
        entry("f.json", true, false),
    ]);
    assert_eq!(ids(&scan.segments), vec!["a.json", "e.json"]);
    assert_eq!(scan.stale, vec!["/store/b.json", "/store/f.json"]);
}

#[test]
fn an_empty_folder_has_nothing() {
    let scan = scan_folder(Vec::new());
    assert!(scan.segments.is_empty() && scan.stale.is_empty());
}

#[test]
fn a_segment_whose_metadata_file_is_gone_is_not_scanned() {
    let scan = scan_folder(vec![entry("a.json", true, true), entry("c.json", true, true)]);
    assert_eq!(ids(&scan.segments), vec!["a.json", "c.json"]);
}

#[test]
fn the_newest_segments_come_first() {
    let found = vec![
        segment("old", "2024-01-01T00:00:00+00:00", 1),
        segment("new", "2024-03-01T00:00:00+00:00", 1),
        segment("middle", "2024-02-01T00:00:00+00:00", 1),
    ];
    assert_eq!(ids(&recent_segments(found, None)), vec!["new", "middle", "old"]);
}

#[test]
fn segments_of_one_date_keep_their_order() {
    let found = vec![
        segment("a", "2", 1),
        segment("b", "1", 1),
        segment("c", "2", 1),
        segment("d", "3", 1),
        segment("e", "1", 1),
        segment("f", "2", 1),
    ];
    assert_eq!(ids(&recent_segments(found, None)), vec!["d", "a", "c", "f", "b", "e"]);
}

#[test]
fn a_limit_cuts_the_oldest() {
    let make = || vec![segment("a", "1", 1), segment("b", "3", 1), segment("c", "2", 1)];
    assert_eq!(ids(&recent_segments(make(), Some(2))), vec!["b", "c"]);
    assert_eq!(ids(&recent_segments(make(), Some(0))), Vec::<&str>::new());
    assert_eq!(ids(&recent_segments(make(), Some(9))), vec!["b", "c", "a"]);
}

#[test]
fn sorting_is_that_of_std() {
    let mut state: u64 = 17;
    for n in [0_usize, 1, 2, 3, 10, 65, 200] {
        let mut dates: Vec<String> = Vec::new();
        for _ in 0..n {
            state = state.wrapping_mul(6364136223846793005).wrapping_add(1442695040888963407);
            dates.push(format!("{}", (state >> 33) % 20));
        }
        let make = || -> Vec<ScreenMemorySegmentMetadata> {
            dates.iter().enumerate().map(|(i, date)| segment(&format!("{i}"), date, 1)).collect()
        };
        let mut expected = make();
        expected.sort_by(|a, b| b.ended_at.cmp(&a.ended_at));
        assert_eq!(ids(&sort_newest_first(make())), ids(&expected));
    }
}

#[test]
fn reversing_turns_the_order_round() {
    assert_eq!(reversed(vec![1, 2, 3]), vec![3, 2, 1]);
    assert!(reversed(Vec::<u8>::new()).is_empty());
}

#[test]
fn what_is_too_old_is_pruned() {
    let segments = vec![
        segment("fresh", "2024-01-01T23:59:00+00:00", 1),
        segment("edge", "2024-01-01T23:00:00+00:00", 1),
        segment("old", "2024-01-01T22:59:59.999+00:00", 1),
        segment("undated", "someday", 1),
    ];
    assert_eq!(prune_segments_at(&segments, &settings(1, 1000), NOW), vec!["old"]);
}

#[test]
fn what_does_not_fit_is_pruned() {
    let segments = vec![
        segment("a", "2024-01-01T23:50:00+00:00", 40),
        segment("b", "2024-01-01T23:40:00+00:00", 60),
        segment("c", "2024-01-01T23:30:00+00:00", 1),
        segment("d", "2024-01-01T23:20:00+00:00", 0),
    ];
    assert_eq!(prune_segments_at(&segments, &settings(24, 100), NOW), vec!["c", "d"]);
    assert_eq!(
        prune_segments_at(&segments, &settings(24, 101), NOW),
        Vec::<String>::new()
    );
    assert_eq!(prune_segments_at(&segments, &settings(24, 39), NOW), vec!["a", "b", "c", "d"]);
}

#[test]
fn an_expired_segment_still_counts_towards_the_size() {
    let segments = vec![
        segment("undated", "zzz", 50),
        segment("fresh", "2024-01-01T23:50:00+00:00", 40),
        segment("old", "2023-01-01T00:00:00+00:00", 20),
        segment("undated too", "2022", 0),
    ];
    assert_eq!(
        prune_segments_at(&segments, &settings(1, 100), NOW),
        vec!["old", "undated too"]
    );
}

#[test]
fn pruning_right_after_pruning_takes_nothing() {
    let segments = vec![
        segment("a", "2024-01-01T23:50:00+00:00", 40),
        segment("b", "2024-01-01T23:40:00+00:00", 70),
        segment("c", "2024-01-01T23:30:00+00:00", 10),
        segment("d", "2023-01-01T00:00:00+00:00", 0),
    ];
    let gone = prune_segments_at(&segments, &settings(24, 100), NOW);
    assert_eq!(gone, vec!["b", "c", "d"]);
    let kept: Vec<ScreenMemorySegmentMetadata> =
        segments.into_iter().filter(|segment| !gone.contains(&segment.id)).collect();
    assert!(kept.iter().map(|segment| segment.bytes).sum::<u64>() <= 100);
    assert!(prune_segments_at(&kept, &settings(24, 100), NOW).is_empty());
}

#[test]
fn the_size_counter_stops_at_its_highest_value() {
    let ages = vec![
        SegmentAge { ended: None, bytes: u64::MAX },
        SegmentAge { ended: None, bytes: u64::MAX },
    ];
    assert_eq!(prune_choices(&ages, NOW, u64::MAX), vec![false, false]);
    assert_eq!(prune_choices(&ages, NOW, u64::MAX - 1), vec![true, true]);
}

#[test]
fn choices_follow_age_and_size() {
    let ages = vec![
        SegmentAge { ended: Some(UtcTime { secs: 100, nanos: 0 }), bytes: 5 },
        SegmentAge { ended: Some(UtcTime { secs: 99, nanos: 999 }), bytes: 5 },
        SegmentAge { ended: None, bytes: 5 },
        SegmentAge { ended: Some(UtcTime { secs: 200, nanos: 0 }), bytes: 6 },
    ];
    let cutoff = UtcTime { secs: 100, nanos: 0 };
    assert_eq!(prune_choices(&ages, cutoff, 20), vec![false, true, false, true]);
    assert!(prune_choices(&Vec::new(), cutoff, 0).is_empty());
}

#[test]
fn pruning_goes_by_the_present_time() {
    let now = current_time();
    let found = vec![
        segment("old", &write_stamp(minutes_before(now, 121)), 1),
        segment("fresh", &now_iso(), 1),
        segment("hour", &write_stamp(minutes_before(now, 60)), 1),
    ];
    assert_eq!(prune_segments(found, &settings(2, 1000)), vec!["old"]);
}

#[test]
fn pruning_sorts_before_it_counts() {
    let now = current_time();
    let found = vec![
        segment("older", &write_stamp(minutes_before(now, 20)), 60),
        segment("newer", &write_stamp(minutes_before(now, 10)), 60),
    ];
    assert_eq!(prune_segments(found, &settings(720, 100)), vec!["older"]);
}

#[test]
fn a_named_segment_alone_is_deleted() {
    let asked = screen_memory_delete(Some("  segment-1-2\n".to_string()), settings(3, 4));
    assert!(matches!(asked, DeleteRequest::One(id) if id == "segment-1-2"));
}

#[test]
fn without_a_name_everything_is_deleted_and_recording_stops() {
    for id in [None, Some(String::new()), Some(" \t ".to_string())] {
        let current = ScreenMemoryConfig { paused: true, ..settings(3, 4) };
        match screen_memory_delete(id, current) {
            DeleteRequest::All(config) => assert_eq!(
                config,
                ScreenMemoryConfig { enabled: false, paused: false, ..settings(3, 4) }
            ),
            DeleteRequest::One(_) => panic!("one segment"),
        }
    }
}

#[test]
fn commands_list_and_delete() {
    let found = vec![segment("a", "1", 1), segment("b", "2", 1)];
    assert_eq!(ids(&screen_memory_recent_segments(found, Some(1))), vec!["b"]);
    match screen_memory_delete_all(settings(3, 4)) {
        DeleteRequest::All(config) => assert!(!config.enabled && config.retention_hours == 3),
        DeleteRequest::One(_) => panic!("one segment"),
    }
}

#[test]
fn pruning_goes_on_after_a_failure() {
    let mut pruning = Pruning::of(vec!["a".to_string(), "b".to_string()]);
    let mut tried = Vec::new();
    let mut action = pruning.next_action();
    while let PruneAction::Delete(id) = action {
        let outcome = if id == "a" {
            Err("denied".to_string())
        } else {
            Ok(ScreenMemoryDeleteResult { deleted_segments: 1, deleted_bytes: 2 })
        };
        tried.push(id);
        action = pruning.after_deletion(outcome);
    }
    assert_eq!(tried, vec!["a", "b"]);
    assert!(matches!(Pruning::of(Vec::new()).next_action(), PruneAction::Done));
}
