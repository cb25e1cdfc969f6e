use screen_memory::clock::UtcTime;
use screen_memory::export::{
    export_cutoff, export_file_name, export_folders, export_folders_at, export_item,
    export_recent, exported_file, screen_memory_export_recent, CopyOutcome, ExportItem, Exporting,
    DEFAULT_EXPORT_MINUTES,
};
use screen_memory::segment::ScreenMemorySegmentMetadata;

fn segment(path: &str, ended_at: &str) -> ScreenMemorySegmentMetadata {
    ScreenMemorySegmentMetadata {
        id: "id".to_string(),
        path: path.to_string(),
        file_name: "name".to_string(),
        mime_type: format!("type of {path}"),
        started_at: String::new(),
        ended_at: ended_at.to_string(),
        duration_ms: 0,
        width: None,
        height: None,
        bytes: 1,
        corrupt: false,
        error: None,
    }
}

/// 2024-01-01T00:00:00Z
const NOW: UtcTime = UtcTime { secs: 1_704_067_200, nanos: 5 };

#[test]
fn an_export_covers_clamped_minutes() {
    assert_eq!(DEFAULT_EXPORT_MINUTES, 5);
    let cutoff = export_cutoff(5, NOW);
    assert_eq!((cutoff.secs, cutoff.nanos), (NOW.secs - 300, 5));
    assert_eq!(export_cutoff(0, NOW).secs, NOW.secs - 60);
    assert_eq!(export_cutoff(u64::MAX, NOW).secs, NOW.secs - 2_592_000);
}

#[test]
fn an_export_goes_back_from_now() {
    for (minutes, seconds) in [(None, 300), (Some(2), 120), (Some(0), 60)] {
        let before = chrono::Utc::now().timestamp();
        let cutoff = screen_memory_export_recent(minutes);
        let after = chrono::Utc::now().timestamp();
        assert!(before - seconds <= cutoff.secs && cutoff.secs <= after - seconds);
    }
}

#[test]
fn an_export_lies_in_its_folders() {
    let at = UtcTime { secs: NOW.secs + 600, nanos: 0 };
    assert_eq!(export_folders_at(at), vec!["Clips", "Screen Memory", "2024-01-01-001000"]);
}

#[test]
fn the_export_folder_is_named_now() {
    let before = chrono::Utc::now().format("%Y-%m-%d-%H%M%S").to_string();
    let folders = export_folders();
    let after = chrono::Utc::now().format("%Y-%m-%d-%H%M%S").to_string();
    assert_eq!(folders.len(), 3);
    assert_eq!(&folders[..2], &["Clips", "Screen Memory"]);
    assert!(before <= folders[2] && folders[2] <= after);
}

#[test]
fn five_minutes_are_exported() {
    let at = UtcTime { secs: NOW.secs + 600, nanos: 0 };
    let items = export_recent(
        vec![
            segment("/s/b.mov", "2024-01-01T00:09:00+00:00"),
            segment("/s/a", "2024-01-01T00:05:00+00:00"),
            segment("/s/z.mp4", "2024-01-01T00:04:59+00:00"),
        ],
        export_cutoff(5, at),
    )
    .unwrap();
    let names: Vec<(&str, &str)> =
        items.iter().map(|item| (item.source.as_str(), item.file_name.as_str())).collect();
    assert_eq!(names, vec![("/s/a", "segment-01.mp4"), ("/s/b.mov", "segment-02.mov")]);
}

#[test]
fn exported_files_are_numbered() {
    assert_eq!(export_file_name(1, Some("mov".to_string())), "segment-01.mov");
    assert_eq!(export_file_name(12, None), "segment-12.mp4");
    assert_eq!(export_file_name(100, Some("mp4".to_string())), "segment-100.mp4");
    assert_ne!(export_file_name(1, Some("x".to_string())), export_file_name(11, None));
}

#[test]
fn an_item_takes_the_extension_of_its_file() {
    let item = export_item(segment("/a/b.mov", ""), 3, Some("b.mov".to_string()));
    assert_eq!(item.source, "/a/b.mov");
    assert_eq!(item.file_name, "segment-03.mov");
    assert_eq!(item.mime_type, "type of /a/b.mov");
    let item = export_item(segment("/a/b", ""), 4, Some("b".to_string()));
    assert_eq!(item.file_name, "segment-04.mp4");
    let item = export_item(segment("/", ""), 5, None);
    assert_eq!(item.file_name, "segment-05.mp4");
}

#[test]
fn the_oldest_segment_is_exported_first() {
    let items = export_recent(
        vec![
            segment("/m/new.mp4", "2023-12-31T23:59:00+00:00"),
            segment("/m/gone.mp4", "2023-12-31T23:00:00+00:00"),
            segment("/m.x/plain", "2023-12-31T23:58:00+00:00"),
            segment("/m/old.mov", "2023-12-31T23:57:00+00:00"),
        ],
        export_cutoff(5, NOW),
    )
    .unwrap();
    let names: Vec<(&str, &str)> =
        items.iter().map(|item| (item.source.as_str(), item.file_name.as_str())).collect();
    assert_eq!(
        names,
        vec![
            ("/m/old.mov", "segment-01.mov"),
            ("/m.x/plain", "segment-02.mp4"),
            ("/m/new.mp4", "segment-03.mp4"),
        ]
    );
    assert_eq!(items[0].mime_type, "type of /m/old.mov");
}

#[test]
fn an_undated_segment_is_exported() {
    let items = export_recent(vec![segment("/m/a.mp4", "?")], NOW).unwrap();
    assert_eq!(items.len(), 1);
}

#[test]
fn an_export_of_nothing_is_refused() {
    for found in [Vec::new(), vec![segment("/m/a.mp4", "2020-01-01T00:00:00Z")]] {
        match export_recent(found, NOW) {
            Ok(_) => panic!("something was exported"),
            Err(message) => assert_eq!(
                message,
                "No Screen Memory segments are available for that range."
            ),
        }
    }
}

#[test]
fn an_exported_file_is_told_of() {
    let item = ExportItem {
        source: "/a".to_string(),
        file_name: "segment-01.mp4".to_string(),
        mime_type: "video/mp4".to_string(),
    };
    let file = exported_file(&item, "/out/segment-01.mp4".to_string(), 99);
    assert_eq!(file.path, "/out/segment-01.mp4");
    assert_eq!(file.file_name, "segment-01.mp4");
    assert_eq!(file.bytes, 99);
    assert_eq!(file.mime_type, "video/mp4");
}

#[test]
fn the_extension_of_any_name_is_kept() {
    let items = export_recent(vec![segment("/My Movies/day 1 (b).webm", "?")], NOW).unwrap();
    assert_eq!(items[0].file_name, "segment-01.webm");
}

fn exporting() -> Exporting {
    let found = vec![segment("/m/a.mp4", "1"), segment("/m/b.mov", "2")];
    Exporting::start(export_recent(found, NOW).unwrap(), "/out".to_string())
}

#[test]
fn an_export_copies_one_by_one() {
    let mut exporting = exporting();
    let mut sources = Vec::new();
    while let Some(copy) = exporting.next_copy() {
        sources.push(copy.source);
        let bytes = sources.len() as u64 * 10;
        let destination = format!("/out/{}", copy.file_name);
        assert_eq!(exporting.after_copy(destination, CopyOutcome::Copied(bytes)), Ok(()));
    }
    assert_eq!(sources, vec!["/m/a.mp4", "/m/b.mov"]);
    let result = exporting.finish();
    assert_eq!(result.folder_path, "/out");
    let files: Vec<(&str, &str, u64, &str)> = result
        .files
        .iter()
        .map(|f| (f.path.as_str(), f.file_name.as_str(), f.bytes, f.mime_type.as_str()))
        .collect();
    assert_eq!(
        files,
        vec![
            ("/out/segment-01.mp4", "segment-01.mp4", 10, "type of /m/a.mp4"),
            ("/out/segment-02.mov", "segment-02.mov", 20, "type of /m/b.mov"),
        ]
    );
}

#[test]
fn a_failed_copy_is_told_of() {
    let mut exporting = exporting();
    assert_eq!(
        exporting.after_copy("/out/x".to_string(), CopyOutcome::CopyFailed("full".to_string())),
        Err("screen memory export copy failed: full".to_string())
    );
    assert_eq!(
        exporting.after_copy("/out/x".to_string(), CopyOutcome::SizeFailed("gone".to_string())),
        Err("screen memory export metadata failed: gone".to_string())
    );
    assert!(exporting.files.is_empty());
}
