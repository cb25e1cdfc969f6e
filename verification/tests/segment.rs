use screen_memory::segment::{
    examine_stopped_file, file_extension, finalize_active_segment, next_segment_id,
    sanitize_segment_id, segment_id, segment_media_file, segment_metadata, segment_metadata_file,
    ActiveScreenMemorySegment, ScreenMemorySegmentMetadata, StoppedFile, StoppedRecording,
};

fn active(path: &str, mime_type: &str) -> ActiveScreenMemorySegment<u8> {
    ActiveScreenMemorySegment {
        id: "segment-1-2".to_string(),
        path: path.to_string(),
        mime_type: mime_type.to_string(),
        backend: 7,
        started_at_iso: "2024-01-01T00:00:00+00:00".to_string(),
        width: Some(1920),
        height: None,
    }
}

fn stopped(stop_error: Option<&str>, has_index: Option<bool>) -> StoppedRecording {
    StoppedRecording {
        stop_error: stop_error.map(str::to_string),
        ended_at: "2024-01-01T00:05:00+00:00".to_string(),
        duration_ms: 300_000,
        has_index,
    }
}

fn finish(
    active: ActiveScreenMemorySegment<u8>,
    stopped: StoppedRecording,
) -> ScreenMemorySegmentMetadata {
    finalize_active_segment(active, stopped, Ok(4096)).unwrap()
}

#[test]
fn ids_keep_safe_characters() {
    assert_eq!(sanitize_segment_id("segment-1-2"), "segment-1-2");
    assert_eq!(sanitize_segment_id("../Etc/pass_wd\u{e9} 9"), "Etcpass_wd9");
    assert_eq!(sanitize_segment_id("a.b:c;d[e`f{g@h/i"), "abcdefghi");
}

#[test]
fn an_id_without_safe_characters_is_replaced() {
    assert_eq!(sanitize_segment_id(""), "segment");
    assert_eq!(sanitize_segment_id("../.. \u{fc}"), "segment");
}

#[test]
fn sanitizing_twice_is_sanitizing_once() {
    for value in ["", "a/b", "segment-17-0", "///"] {
        let once = sanitize_segment_id(value);
        assert_eq!(sanitize_segment_id(&once), once);
    }
}

#[test]
fn an_id_is_made_of_time_and_counter() {
    assert_eq!(segment_id(1_704_067_200_123, 0), "segment-1704067200123-0");
    assert_eq!(segment_id(0, 42), "segment-0-42");
    assert_eq!(segment_id(u64::MAX, u64::MAX), format!("segment-{}-{}", u64::MAX, u64::MAX));
}

#[test]
fn made_ids_differ_and_are_their_own_ids() {
    assert_ne!(segment_id(1, 11), segment_id(11, 1));
    assert_ne!(segment_id(1, 1), segment_id(1, 2));
    let id = segment_id(1_704_067_200_123, 5);
    assert_eq!(sanitize_segment_id(&id), id);
}

#[test]
fn the_next_id_carries_the_present_time() {
    let before = chrono::Utc::now().timestamp_millis();
    let id = next_segment_id(31);
    let after = chrono::Utc::now().timestamp_millis();
    let rest = id.strip_prefix("segment-").unwrap();
    let millis: i64 = rest.strip_suffix("-31").unwrap().parse().unwrap();
    assert!(before <= millis && millis <= after);
}

#[test]
fn extensions_are_those_of_paths() {
    for name in [
        "a.json",
        "a",
        ".json",
        "a.",
        "a.b.mov",
        "..",
        "...",
        "..a",
        ".a.b",
        "events.jsonl",
        "x.JSON",
    ] {
        let expected = std::path::Path::new(name).extension().map(|e| e.to_str().unwrap());
        assert_eq!(file_extension(name).as_deref(), expected, "{name:?}");
    }
}

#[test]
fn files_are_named_after_the_id() {
    assert_eq!(segment_metadata_file("segment-1-2"), "segment-1-2.json");
    assert_eq!(segment_metadata_file("../x"), "x.json");
    assert_eq!(segment_metadata_file("/"), "segment.json");
    assert_eq!(segment_media_file("segment-1-2", "mp4"), "segment-1-2.mp4");
    assert_eq!(segment_media_file("a/b", "..mov"), "ab.mov");
    assert_eq!(segment_media_file("a", "."), "a.");
}

#[test]
fn ids_of_different_files_differ() {
    assert_ne!(segment_metadata_file("a"), segment_metadata_file("b"));
    assert_eq!(segment_metadata_file("a/b"), segment_metadata_file("ab"));
}

#[test]
fn a_missing_recording_is_told_with_its_causes() {
    let found = examine_stopped_file("video/mp4", &None, Err("no such file".to_string()));
    assert!(matches!(
        found,
        StoppedFile::Missing(message) if message == "Screen Memory segment missing: no such file"
    ));
    let found = examine_stopped_file(
        "video/mp4",
        &Some("broken pipe".to_string()),
        Err("no such file".to_string()),
    );
    assert!(matches!(
        found,
        StoppedFile::Missing(message)
            if message
                == "Screen Memory segment missing after stop error: broken pipe: no such file"
    ));
}

#[test]
fn an_empty_recording_is_given_up() {
    assert!(matches!(
        examine_stopped_file("video/mp4", &Some("late".to_string()), Ok(0)),
        StoppedFile::Empty(message) if message == "Screen Memory segment produced an empty file."
    ));
}

#[test]
fn the_index_is_looked_up_where_there_is_one() {
    assert!(matches!(
        examine_stopped_file("video/mp4", &None, Ok(1)),
        StoppedFile::CheckPlayback(1)
    ));
    assert!(matches!(
        examine_stopped_file("video/quicktime", &None, Ok(9)),
        StoppedFile::CheckPlayback(9)
    ));
    assert!(matches!(
        examine_stopped_file("video/webm", &None, Ok(9)),
        StoppedFile::Complete(9)
    ));
}

#[test]
fn a_finished_segment_is_written_down() {
    let segment = finish(
        active("/data/screen-memory/segment-1-2.mp4", "video/mp4"),
        stopped(None, Some(true)),
    );
    assert_eq!(segment.id, "segment-1-2");
    assert_eq!(segment.path, "/data/screen-memory/segment-1-2.mp4");
    assert_eq!(segment.file_name, "segment-1-2.mp4");
    assert_eq!(segment.mime_type, "video/mp4");
    assert_eq!(segment.started_at, "2024-01-01T00:00:00+00:00");
    assert_eq!(segment.ended_at, "2024-01-01T00:05:00+00:00");
    assert_eq!(segment.duration_ms, 300_000);
    assert_eq!((segment.width, segment.height), (Some(1920), None));
    assert_eq!(segment.bytes, 4096);
    assert!(!segment.corrupt);
    assert_eq!(segment.error, None);
}

#[test]
fn a_recording_is_noted_under_the_last_part_of_its_path() {
    for (path, name) in [
        ("segment.mov", "segment.mov"),
        ("/a.b/c-1_2.mp4", "c-1_2.mp4"),
        ("folder/x", "x"),
        ("/My Movies/day 1 \u{e9}t\u{e9}.mp4", "day 1 \u{e9}t\u{e9}.mp4"),
        ("/a/...", "..."),
        ("/a/.hidden", ".hidden"),
        ("/folder/", "folder"),
        ("/folder//", "folder"),
        ("/folder/x.mp4/.", "x.mp4"),
        ("x.mp4/./", "x.mp4"),
        (".", ""),
        ("./.", ""),
        ("/folder/../", ""),
        ("/.", ""),
        ("/folder/..", ""),
        ("", ""),
        ("/", ""),
    ] {
        let segment = finish(active(path, "video/mp4"), stopped(None, None));
        assert_eq!(segment.file_name, name, "{path:?}");
    }
}

#[test]
fn a_corrupt_segment_says_why() {
    let path = "/data/segment-1-2.mov";
    let segment =
        finish(active(path, "video/quicktime"), stopped(None, Some(false)));
    assert!(segment.corrupt);
    assert_eq!(
        segment.error.as_deref(),
        Some("Screen Memory segment is missing playback metadata.")
    );
    let segment =
        finish(active(path, "video/mp4"), stopped(Some("late"), Some(false)));
    assert!(segment.corrupt);
    assert_eq!(segment.error.as_deref(), Some("late"));
}

#[test]
fn a_segment_without_an_index_kind_is_not_corrupt() {
    let segment =
        finish(active("/d/x.webm", "video/webm"), stopped(None, Some(false)));
    assert!(!segment.corrupt);
    assert_eq!(segment.error, None);
    let segment =
        finish(active("/d/x.mp4", "video/mp4"), stopped(Some("late"), None));
    assert!(!segment.corrupt);
    assert_eq!(segment.error.as_deref(), Some("late"));
}

#[test]
fn a_given_file_name_is_taken() {
    let segment = segment_metadata(
        active("anything", "video/mp4"),
        stopped(None, None),
        8,
        Some("given.mp4".to_string()),
    );
    assert_eq!(segment.file_name, "given.mp4");
    let segment = segment_metadata(active("anything", "video/mp4"), stopped(None, None), 8, None);
    assert_eq!(segment.file_name, "");
}

#[test]
fn a_segment_without_a_recording_is_given_up() {
    let missing = finalize_active_segment(
        active("/d/x.mp4", "video/mp4"),
        stopped(Some("late"), None),
        Err("gone".to_string()),
    );
    assert_eq!(
        missing.err().as_deref(),
        Some("Screen Memory segment missing after stop error: late: gone")
    );
    let empty =
        finalize_active_segment(active("/d/x.mp4", "video/mp4"), stopped(None, None), Ok(0));
    assert_eq!(empty.err().as_deref(), Some("Screen Memory segment produced an empty file."));
}

#[test]
fn a_segment_can_be_cloned() {
    let segment = finish(active("/d/x.mp4", "video/mp4"), stopped(Some("late"), None));
    let copy = segment.clone();
    assert_eq!(format!("{copy:?}"), format!("{segment:?}"));
}
