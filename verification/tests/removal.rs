use screen_memory::catalog::{
    delete_all_segments, delete_segment, ScreenMemoryDeleteResult,
};
use screen_memory::deletion::{sweep_folder, FolderItem};
use screen_memory::removal::{
    remove_file_if_exists, Removal, RemovalAction, RemovalFile, Removals,
};
use screen_memory::segment::ScreenMemorySegmentMetadata;

fn segment(id: &str, ended_at: &str, bytes: u64) -> ScreenMemorySegmentMetadata {
    ScreenMemorySegmentMetadata {
        id: id.to_string(),
        path: format!("/media/{id}.mp4"),
        file_name: format!("{id}.mp4"),
        mime_type: "video/mp4".to_string(),
        started_at: String::new(),
        ended_at: ended_at.to_string(),
        duration_ms: 1,
        width: None,
        height: None,
        bytes,
        corrupt: false,
        error: None,
    }
}

fn counts(deleted_segments: usize, deleted_bytes: u64) -> ScreenMemoryDeleteResult {
    ScreenMemoryDeleteResult { deleted_segments, deleted_bytes }
}

fn shown(file: &RemovalFile) -> String {
    match file {
        RemovalFile::Path(path) => path.clone(),
        RemovalFile::Metadata(name) => format!("<{name}>"),
    }
}

/// Carries removals out, with a failure for the file of this text. Gives the files that were asked
/// for and the end.
fn carry_out(
    mut removals: Removals,
    failing: &str,
) -> (Vec<String>, Result<ScreenMemoryDeleteResult, String>) {
    let mut asked = Vec::new();
    let mut action = removals.next_action();
    loop {
        action = match action {
            RemovalAction::Remove(file) => {
                let text = shown(&file);
                asked.push(text.clone());
                let removal = if text == failing {
                    Removal::Failed("denied".to_string())
                } else if asked.len() % 2 == 0 {
                    Removal::NotFound
                } else {
                    Removal::Removed
                };
                removals.after_removal(&text, removal)
            }
            RemovalAction::Done(result) => return (asked, Ok(result)),
            RemovalAction::Fail(err) => return (asked, Err(err)),
        };
    }
}

#[test]
fn a_file_that_is_not_there_counts_as_removed() {
    assert_eq!(remove_file_if_exists("/x", Removal::Removed), Ok(()));
    assert_eq!(remove_file_if_exists("/x", Removal::NotFound), Ok(()));
    assert_eq!(
        remove_file_if_exists("/x y", Removal::Failed("denied".to_string())),
        Err("remove /x y failed: denied".to_string())
    );
}

#[test]
fn the_recording_goes_before_the_metadata() {
    let (asked, end) = carry_out(delete_segment("a", Some(segment("a", "2024", 77))), "");
    assert_eq!(asked, vec!["/media/a.mp4", "<a.json>"]);
    assert_eq!(end, Ok(counts(1, 77)));
}

#[test]
fn unreadable_metadata_goes_alone() {
    let (asked, end) = carry_out(delete_segment("../a b", None), "");
    assert_eq!(asked, vec!["<ab.json>"]);
    assert_eq!(end, Ok(counts(0, 0)));
}

#[test]
fn a_recording_that_stays_keeps_its_metadata() {
    let removals = delete_segment("a", Some(segment("a", "2024", 77)));
    let (asked, end) = carry_out(removals, "/media/a.mp4");
    assert_eq!(asked, vec!["/media/a.mp4"]);
    assert_eq!(end, Err("remove /media/a.mp4 failed: denied".to_string()));
}

#[test]
fn metadata_that_stays_is_told_of() {
    let removals = delete_segment("a", Some(segment("a", "2024", 77)));
    let (asked, end) = carry_out(removals, "<a.json>");
    assert_eq!(asked.len(), 2);
    assert_eq!(end, Err("remove <a.json> failed: denied".to_string()));
}

#[test]
fn all_segments_go_newest_first() {
    let make = || delete_all_segments(vec![segment("a", "1", 10), segment("b/c", "2", u64::MAX)]);
    let (asked, end) = carry_out(make(), "");
    assert_eq!(asked, vec!["/media/b/c.mp4", "<bc.json>", "/media/a.mp4", "<a.json>"]);
    assert_eq!(end, Ok(counts(2, u64::MAX)));
    let (asked, end) = carry_out(make(), "<bc.json>");
    assert_eq!(asked, vec!["/media/b/c.mp4", "<bc.json>"]);
    assert_eq!(end, Err("remove <bc.json> failed: denied".to_string()));
}

#[test]
fn a_second_deletion_counts_nothing() {
    let (asked, end) = carry_out(delete_all_segments(Vec::new()), "");
    assert!(asked.is_empty());
    assert_eq!(end, Ok(counts(0, 0)));
}

#[test]
fn a_sweep_goes_file_by_file() {
    let items = || {
        vec![
            FolderItem { path: "/s/events.jsonl".to_string(), is_file: true },
            FolderItem { path: "/s/folder".to_string(), is_file: false },
            FolderItem { path: "/s/x.mp4".to_string(), is_file: true },
        ]
    };
    let (asked, end) = carry_out(sweep_folder(&items(), counts(3, 4)), "");
    assert_eq!(asked, vec!["/s/events.jsonl", "/s/x.mp4"]);
    assert_eq!(end, Ok(counts(3, 4)));
    let (asked, end) = carry_out(sweep_folder(&items(), counts(3, 4)), "/s/events.jsonl");
    assert_eq!(asked.len(), 1);
    assert!(end.is_err());
}
