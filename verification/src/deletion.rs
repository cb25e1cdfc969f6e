//! Deleting at the user's request: in which order it is done, and what is left.

use crate::catalog::{
    are_files_of, is_live, live_segments, total_bytes, DeleteRequest, FolderEntry,
    ScreenMemoryDeleteResult,
};
use crate::config::ScreenMemoryConfig;
use crate::order::{newest_first_of, newest_first_of_is_order, same_by_date_holds_same_records};
use crate::removal::{is_metadata_file_of, RemovalFile, Removals};
use crate::segment::ScreenMemorySegmentMetadata;
use vstd::prelude::*;

verus! {

/// What happened in the course of a deletion.
pub enum DeleteEvent {
    /// The user asks for it. `is_active` tells whether the segment that is named, if one is, is the
    /// one in progress.
    Asked { request: DeleteRequest, is_active: bool },
    /// The segment in progress, which has this id, was stopped, or why it was not.
    Stopped { id: String, outcome: Result<(), String> },
    /// The settings were stored, or why they were not.
    Stored(Result<(), String>),
    /// The segment was deleted, or why it was not.
    SegmentDeleted(Result<ScreenMemoryDeleteResult, String>),
    /// The files of all segments were removed, or why they were not.
    SegmentsRemoved(Result<ScreenMemoryDeleteResult, String>),
    /// The storage folder was swept, or why it was not.
    Swept(Result<ScreenMemoryDeleteResult, String>),
    /// The change was announced.
    Announced(ScreenMemoryDeleteResult),
}

/// What has to be done next in the course of a deletion.
pub enum DeleteAction {
    /// Stop the segment in progress, which has this id.
    Stop(String),
    /// Store these settings, and have the recorder follow them.
    Store(ScreenMemoryConfig),
    /// Delete the segment with this id.
    DeleteSegment(String),
    /// Remove the files of all segments.
    RemoveSegments,
    /// Remove every file that is left in the storage folder.
    Sweep(ScreenMemoryDeleteResult),
    /// Announce the change.
    Announce(ScreenMemoryDeleteResult),
    /// The deletion is done, with this result.
    Done(ScreenMemoryDeleteResult),
    /// The deletion is given up, for this reason.
    Fail(String),
}

/// What follows an event in the course of a deletion.
pub open spec fn after_delete_event(event: DeleteEvent) -> DeleteAction {
    match event {
        DeleteEvent::Asked { request: DeleteRequest::One(id), is_active } => if is_active {
            DeleteAction::Stop(id)
        } else {
            DeleteAction::DeleteSegment(id)
        },
        DeleteEvent::Asked { request: DeleteRequest::All(config), .. } => DeleteAction::Store(
            config,
        ),
        DeleteEvent::Stopped { id, outcome: Ok(_) } => DeleteAction::DeleteSegment(id),
        DeleteEvent::Stopped { outcome: Err(err), .. } => DeleteAction::Fail(err),
        DeleteEvent::Stored(Ok(_)) => DeleteAction::RemoveSegments,
        DeleteEvent::Stored(Err(err)) => DeleteAction::Fail(err),
        DeleteEvent::SegmentDeleted(Ok(result)) => DeleteAction::Announce(result),
        DeleteEvent::SegmentDeleted(Err(err)) => DeleteAction::Fail(err),
        DeleteEvent::SegmentsRemoved(Ok(result)) => DeleteAction::Sweep(result),
        DeleteEvent::SegmentsRemoved(Err(err)) => DeleteAction::Fail(err),
        DeleteEvent::Swept(Ok(result)) => DeleteAction::Announce(result),
        DeleteEvent::Swept(Err(err)) => DeleteAction::Fail(err),
        DeleteEvent::Announced(result) => DeleteAction::Done(result),
    }
}

/// Decides what follows an event in the course of a deletion.
pub fn proceed_with_deletion(event: DeleteEvent) -> (r: DeleteAction)
    ensures
        r == after_delete_event(event),
{
    match event {
        DeleteEvent::Asked { request, is_active } => match request {
            DeleteRequest::One(id) => if is_active {
                DeleteAction::Stop(id)
            } else {
                DeleteAction::DeleteSegment(id)
            },
            DeleteRequest::All(config) => DeleteAction::Store(config),
        },
        DeleteEvent::Stopped { id, outcome } => match outcome {
            Ok(()) => DeleteAction::DeleteSegment(id),
            Err(err) => DeleteAction::Fail(err),
        },
        DeleteEvent::Stored(outcome) => match outcome {
            Ok(()) => DeleteAction::RemoveSegments,
            Err(err) => DeleteAction::Fail(err),
        },
        DeleteEvent::SegmentDeleted(outcome) => match outcome {
            Ok(result) => DeleteAction::Announce(result),
            Err(err) => DeleteAction::Fail(err),
        },
        DeleteEvent::SegmentsRemoved(outcome) => match outcome {
            Ok(result) => DeleteAction::Sweep(result),
            Err(err) => DeleteAction::Fail(err),
        },
        DeleteEvent::Swept(outcome) => match outcome {
            Ok(result) => DeleteAction::Announce(result),
            Err(err) => DeleteAction::Fail(err),
        },
        DeleteEvent::Announced(result) => DeleteAction::Done(result),
    }
}

/// `event` reports on `action`, of the same segment and the same result.
pub open spec fn answers_delete(action: DeleteAction, event: DeleteEvent) -> bool {
    match action {
        DeleteAction::Stop(named) => event matches DeleteEvent::Stopped { id, .. } && id == named,
        DeleteAction::Store(_) => event is Stored,
        DeleteAction::DeleteSegment(_) => event is SegmentDeleted,
        DeleteAction::RemoveSegments => event is SegmentsRemoved,
        DeleteAction::Sweep(result) => match event {
            DeleteEvent::Swept(Ok(kept)) => kept == result,
            DeleteEvent::Swept(Err(_)) => true,
            _ => false,
        },
        DeleteAction::Announce(result) => event == DeleteEvent::Announced(result),
        DeleteAction::Done(_) | DeleteAction::Fail(_) => false,
    }
}

/// `events` is the course of one deletion, each event reporting on what the one before called for.
pub open spec fn is_deletion(events: Seq<DeleteEvent>) -> bool {
    &&& events.len() > 0
    &&& events[0] is Asked
    &&& forall|i: int|
        0 < i < events.len() ==> answers_delete(
            after_delete_event(events[i - 1]),
            #[trigger] events[i],
        )
}

/// The events that can still follow, at most.
pub open spec fn delete_events_left(event: DeleteEvent) -> nat {
    match event {
        DeleteEvent::Asked { .. } => 4,
        DeleteEvent::Stopped { .. } => 3,
        DeleteEvent::Stored(_) => 3,
        DeleteEvent::SegmentsRemoved(_) => 2,
        DeleteEvent::SegmentDeleted(_) => 1,
        DeleteEvent::Swept(_) => 1,
        DeleteEvent::Announced(_) => 0,
    }
}

/// A deletion comes to an end.
pub proof fn deleting_ends(event: DeleteEvent, next: DeleteEvent)
    requires
        answers_delete(after_delete_event(event), next),
    ensures
        delete_events_left(next) < delete_events_left(event),
{
}

/// A segment that is in progress is stopped before it is deleted.
pub proof fn segment_is_stopped_before_it_goes(events: Seq<DeleteEvent>, i: int)
    requires
        is_deletion(events),
        0 <= i < events.len(),
        events[i] is SegmentDeleted,
    ensures
        events[0] matches DeleteEvent::Asked { request: DeleteRequest::One(named), is_active } && {
            if is_active {
                &&& i == 2
                &&& events[1] matches DeleteEvent::Stopped { id, outcome: Ok(_) } && id == named
                &&& after_delete_event(events[1]) == DeleteAction::DeleteSegment(named)
            } else {
                &&& i == 1
                &&& after_delete_event(events[0]) == DeleteAction::DeleteSegment(named)
            }
        },
{
    assert(answers_delete(after_delete_event(events[i - 1]), events[i]));
    if events[i - 1] is Stopped {
        assert(answers_delete(after_delete_event(events[i - 2]), events[i - 1]));
        if i - 2 > 0 {
            assert(answers_delete(after_delete_event(events[i - 3]), events[i - 2]));
        }
    } else if i - 1 > 0 {
        assert(answers_delete(after_delete_event(events[i - 2]), events[i - 1]));
    }
}

/// Before all files go, the settings of the request are stored; the segments' own files go before
/// the folder is swept.
pub proof fn settings_are_stored_before_everything_goes(events: Seq<DeleteEvent>, i: int)
    requires
        is_deletion(events),
        0 <= i < events.len(),
        events[i] is SegmentsRemoved || events[i] is Swept,
    ensures
        events[0] matches DeleteEvent::Asked { request: DeleteRequest::All(config), .. }
            && after_delete_event(events[0]) == DeleteAction::Store(config),
        events[1] matches DeleteEvent::Stored(Ok(_)),
        events[i] is SegmentsRemoved ==> i == 2,
        events[i] is Swept ==> i == 3 && (events[2] matches DeleteEvent::SegmentsRemoved(Ok(_))),
{
    assert(answers_delete(after_delete_event(events[i - 1]), events[i]));
    let k = if events[i] is Swept {
        i - 1
    } else {
        i
    };
    assert(events[k] is SegmentsRemoved);
    assert(answers_delete(after_delete_event(events[k - 1]), events[k]));
    assert(events[k - 1] matches DeleteEvent::Stored(Ok(_)));
    assert(answers_delete(after_delete_event(events[k - 2]), events[k - 1]));
    if k - 2 > 0 {
        assert(answers_delete(after_delete_event(events[k - 3]), events[k - 2]));
    }
}

/// Where the settings cannot be stored, or the segment in progress cannot be stopped, nothing is
/// deleted: the deletion is given up with that error as its second event.
pub proof fn failed_first_step_deletes_nothing(events: Seq<DeleteEvent>, err: String)
    requires
        is_deletion(events),
        events.len() > 1,
        events[1] == DeleteEvent::Stored(Err(err)) || (events[1] matches DeleteEvent::Stopped {
            outcome: Err(cause),
            ..
        } && cause == err),
    ensures
        events.len() == 2,
        after_delete_event(events.last()) == DeleteAction::Fail(err),
        forall|i: int|
            0 <= i < events.len() ==> !(#[trigger] events[i] is SegmentDeleted)
                && !(events[i] is SegmentsRemoved) && !(events[i] is Swept),
{
    if events.len() > 2 {
        assert(answers_delete(after_delete_event(events[1]), events[2]));
    }
}

/// A deletion that is done tells of what it deleted: one segment, or all of them with the folder
/// swept after.
pub proof fn deletion_tells_its_result(events: Seq<DeleteEvent>, result: ScreenMemoryDeleteResult)
    requires
        is_deletion(events),
        after_delete_event(events.last()) == DeleteAction::Done(result),
    ensures
        events.len() > 2,
        ({
            ||| events[events.len() - 2] == DeleteEvent::SegmentDeleted(Ok(result))
            ||| events.len() == 5 && events[2] == DeleteEvent::SegmentsRemoved(Ok(result))
                && events[3] == DeleteEvent::Swept(Ok(result))
        }),
{
    let n = events.len() - 1;
    assert(events[n] == DeleteEvent::Announced(result));
    assert(answers_delete(after_delete_event(events[n - 1]), events[n]));
    assert(answers_delete(after_delete_event(events[n - 2]), events[n - 1]));
    if events[n - 1] is Swept {
        settings_are_stored_before_everything_goes(events, n - 1);
    }
}

/// What is found in the storage folder under one path.
pub struct FolderItem {
    pub path: String,
    /// Whether it is a regular file.
    pub is_file: bool,
}

/// The paths of the regular files, in order.
pub open spec fn regular_files(items: Seq<FolderItem>) -> Seq<String>
    decreases items.len(),
{
    if items.len() == 0 {
        Seq::empty()
    } else if items.last().is_file {
        regular_files(items.drop_last()).push(items.last().path)
    } else {
        regular_files(items.drop_last())
    }
}

/// The files to remove when the storage folder is swept: every regular file, and nothing else.
pub fn files_to_sweep(items: &Vec<FolderItem>) -> (r: Vec<String>)
    ensures
        r@ == regular_files(items@),
{
    let mut files: Vec<String> = Vec::new();
    let mut i: usize = 0;
    while i < items.len()
        invariant
            i <= items.len(),
            files@ == regular_files(items@.take(i as int)),
        decreases items.len() - i,
    {
        assert(items@.take(i + 1).drop_last() =~= items@.take(i as int));
        if items[i].is_file {
            files.push(items[i].path.clone());
        }
        i += 1;
    }
    assert(items@.take(i as int) =~= items@);
    files
}

/// The removal of every regular file of the storage folder, in order, after which a full deletion
/// has this result.
pub fn sweep_folder(items: &Vec<FolderItem>, result: ScreenMemoryDeleteResult) -> (r: Removals)
    ensures
        r.next == 0,
        r.result == result,
        r.files@ == regular_files(items@).map_values(|path: String| RemovalFile::Path(path)),
{
    let paths = files_to_sweep(items);
    let ghost to_file = |path: String| RemovalFile::Path(path);
    let mut files: Vec<RemovalFile> = Vec::new();
    let mut i: usize = 0;
    while i < paths.len()
        invariant
            i <= paths.len(),
            to_file == (|path: String| RemovalFile::Path(path)),
            files@ == paths@.take(i as int).map_values(to_file),
        decreases paths.len() - i,
    {
        files.push(RemovalFile::Path(paths[i].clone()));
        assert(paths@.take(i + 1) =~= paths@.take(i as int).push(paths@[i as int]));
        assert(files@ =~= paths@.take(i + 1).map_values(to_file));
        i += 1;
    }
    assert(paths@.take(i as int) =~= paths@);
    Removals { files, next: 0, result }
}

/// A path is swept if and only if a regular file lies there.
pub proof fn sweep_takes_exactly_the_files(items: Seq<FolderItem>, path: String)
    ensures
        regular_files(items).contains(path) <==> exists|i: int|
            0 <= i < items.len() && (#[trigger] items[i]).is_file && items[i].path == path,
    decreases items.len(),
{
    if items.len() > 0 {
        let rest = items.drop_last();
        let last = items[items.len() - 1];
        let before = regular_files(rest);
        sweep_takes_exactly_the_files(rest, path);
        if regular_files(items).contains(path) {
            let k = choose|k: int|
                0 <= k < regular_files(items).len() && regular_files(items)[k] == path;
            if k < before.len() {
                assert(before[k] == path);
                let i = choose|i: int|
                    0 <= i < rest.len() && (#[trigger] rest[i]).is_file && rest[i].path == path;
                assert(items[i] == rest[i]);
            } else {
                assert(last.is_file && last.path == path);
            }
        }
        if exists|i: int|
            0 <= i < items.len() && (#[trigger] items[i]).is_file && items[i].path == path {
            let i = choose|i: int|
                0 <= i < items.len() && (#[trigger] items[i]).is_file && items[i].path == path;
            if i < rest.len() {
                assert(rest[i] == items[i]);
                let k = choose|k: int| 0 <= k < before.len() && before[k] == path;
                assert(regular_files(items)[k] == path);
            } else {
                assert(regular_files(items)[before.len() as int] == path);
            }
        }
    }
}

/// What is left in a folder once `removed` are gone.
pub open spec fn items_left(items: Seq<FolderItem>, removed: Seq<String>) -> Seq<FolderItem> {
    items.filter(|item: FolderItem| !removed.contains(item.path))
}

/// A sweep leaves no regular file, whatever the file is, and all that is no regular file.
pub proof fn sweep_leaves_no_file(items: Seq<FolderItem>)
    ensures
        forall|i: int|
            0 <= i < items_left(items, regular_files(items)).len() ==> !(#[trigger] items_left(
                items,
                regular_files(items),
            )[i]).is_file,
        regular_files(items_left(items, regular_files(items))) == Seq::<String>::empty(),
        forall|k: int|
            0 <= k < items.len() && !regular_files(items).contains((#[trigger] items[k]).path)
                ==> items_left(items, regular_files(items)).contains(items[k]),
{
    let removed = regular_files(items);
    let stays = |item: FolderItem| !removed.contains(item.path);
    let left = items_left(items, removed);
    assert forall|i: int| 0 <= i < left.len() implies !(#[trigger] left[i]).is_file by {
        items.lemma_filter_pred(stays, i);
        assert(left.contains(left[i]));
        items.lemma_filter_contains_rev(stays, left[i]);
        let k = choose|k: int| 0 <= k < items.len() && items[k] == left[i];
        sweep_takes_exactly_the_files(items, left[i].path);
        assert(items[k].path == left[i].path);
    }
    no_files_are_none(left);
    assert forall|k: int|
        0 <= k < items.len() && !removed.contains((#[trigger] items[k]).path) implies left.contains(
        items[k],
    ) by {
        items.lemma_filter_contains(stays, k);
    }
}

proof fn no_files_are_none(items: Seq<FolderItem>)
    requires
        forall|i: int| 0 <= i < items.len() ==> !(#[trigger] items[i]).is_file,
    ensures
        regular_files(items) == Seq::<String>::empty(),
    decreases items.len(),
{
    if items.len() > 0 {
        let rest = items.drop_last();
        assert(!items[items.len() - 1].is_file);
        assert forall|i: int| 0 <= i < rest.len() implies !(#[trigger] rest[i]).is_file by {
            assert(rest[i] == items[i]);
        }
        no_files_are_none(rest);
    }
}

/// A folder within the storage folder stays when that is swept.
pub proof fn sweep_spares_folders(items: Seq<FolderItem>, k: int)
    requires
        0 <= k < items.len(),
        forall|i: int|
            0 <= i < items.len() && (#[trigger] items[i]).path == items[k].path
                ==> !items[i].is_file,
    ensures
        items_left(items, regular_files(items)).contains(items[k]),
{
    sweep_takes_exactly_the_files(items, items[k].path);
    sweep_leaves_no_file(items);
}

/// What a scan looks at once `removed` are gone: the files that are left, and whether the recordings
/// of their segments still exist.
pub open spec fn entries_left(entries: Seq<FolderEntry>, removed: Seq<String>) -> Seq<FolderEntry> {
    entries.filter(|entry: FolderEntry| !removed.contains(entry.path)).map_values(
        |entry: FolderEntry|
            FolderEntry {
                media_exists: entry.media_exists && !(entry.metadata matches Some(segment)
                    && removed.contains(segment.path)),
                ..entry
            },
    )
}

/// Where the recordings of segments lie.
pub open spec fn recordings_of(segments: Seq<ScreenMemorySegmentMetadata>) -> Seq<String> {
    segments.map_values(|segment: ScreenMemorySegmentMetadata| segment.path)
}

/// The paths that a full deletion removes, besides the segments' metadata files: the recordings of
/// the segments that a scan of `entries` finds, and what the sweep of `items` takes.
pub open spec fn fully_deleted(entries: Seq<FolderEntry>, items: Seq<FolderItem>) -> Seq<String> {
    recordings_of(newest_first_of(live_segments(entries))) + regular_files(items)
}

proof fn live_entry_is_found(entries: Seq<FolderEntry>, i: int)
    requires
        0 <= i < entries.len(),
        is_live(entries[i]),
    ensures
        live_segments(entries).contains(entries[i].metadata->0),
    decreases entries.len(),
{
    let rest = entries.drop_last();
    let before = live_segments(rest);
    let segment = entries[i].metadata->0;
    if i == entries.len() - 1 {
        assert(before.push(segment)[before.len() as int] == segment);
    } else {
        live_entry_is_found(rest, i);
        let k = choose|k: int| 0 <= k < before.len() && before[k] == segment;
        assert(live_segments(entries)[k] == segment);
    }
}

proof fn nothing_live_is_none(entries: Seq<FolderEntry>)
    requires
        forall|i: int| 0 <= i < entries.len() ==> !is_live(#[trigger] entries[i]),
    ensures
        live_segments(entries) == Seq::<ScreenMemorySegmentMetadata>::empty(),
    decreases entries.len(),
{
    if entries.len() > 0 {
        let rest = entries.drop_last();
        assert(!is_live(entries[entries.len() - 1]));
        assert forall|i: int| 0 <= i < rest.len() implies !is_live(#[trigger] rest[i]) by {
            assert(rest[i] == entries[i]);
        }
        nothing_live_is_none(rest);
    }
}

/// Once everything was deleted there is nothing more to delete: a scan finds no segment, since the
/// recordings of all that it found before are gone, so that a second full deletion counts no segment
/// and no byte; and no regular file is left to sweep.
pub proof fn full_deletion_leaves_nothing(entries: Seq<FolderEntry>, items: Seq<FolderItem>)
    ensures
        live_segments(entries_left(entries, fully_deleted(entries, items))) == Seq::<
            ScreenMemorySegmentMetadata,
        >::empty(),
        newest_first_of(
            live_segments(entries_left(entries, fully_deleted(entries, items))),
        ).len() == 0,
        total_bytes(
            newest_first_of(live_segments(entries_left(entries, fully_deleted(entries, items)))),
        ) == 0,
        regular_files(items_left(items, regular_files(items))) == Seq::<String>::empty(),
{
    let removed = fully_deleted(entries, items);
    let found = live_segments(entries);
    let sorted = newest_first_of(found);
    let stays = |entry: FolderEntry| !removed.contains(entry.path);
    let kept = entries.filter(stays);
    let left = entries_left(entries, removed);
    newest_first_of_is_order(found);
    same_by_date_holds_same_records(sorted, found);
    assert forall|i: int| 0 <= i < left.len() implies !is_live(#[trigger] left[i]) by {
        if is_live(left[i]) {
            let entry = kept[i];
            entries.lemma_filter_pred(stays, i);
            assert(kept.contains(entry));
            entries.lemma_filter_contains_rev(stays, entry);
            let k = choose|k: int| 0 <= k < entries.len() && entries[k] == entry;
            assert(is_live(entries[k]));
            live_entry_is_found(entries, k);
            let segment = entry.metadata->0;
            assert(sorted.contains(segment));
            let n = choose|n: int| 0 <= n < sorted.len() && sorted[n] == segment;
            assert(removed[n] == segment.path);
        }
    }
    nothing_live_is_none(left);
    sweep_leaves_no_file(items);
}

/// A full deletion removes the recording and the metadata file of every segment that was found, the
/// recording first.
pub proof fn full_deletion_takes_every_segment(
    files: Seq<RemovalFile>,
    found: Seq<ScreenMemorySegmentMetadata>,
    i: int,
)
    requires
        are_files_of(files, newest_first_of(found)),
        0 <= i < found.len(),
    ensures
        exists|k: int|
            0 <= k < files.len() - 1 && #[trigger] files[k] == RemovalFile::Path(found[i].path)
                && is_metadata_file_of(files[k + 1], found[i].id@),
{
    let sorted = newest_first_of(found);
    newest_first_of_is_order(found);
    same_by_date_holds_same_records(sorted, found);
    assert(found.contains(found[i]));
    let k = choose|k: int| 0 <= k < sorted.len() && sorted[k] == found[i];
    assert(sorted[k].path == found[i].path);
    assert(files[2 * k] == RemovalFile::Path(found[i].path));
}

/// Each event of a deletion has its one answer.
pub proof fn each_delete_event_has_its_answer(
    id: String,
    config: ScreenMemoryConfig,
    is_active: bool,
    result: ScreenMemoryDeleteResult,
    err: String,
)
    ensures
        after_delete_event(
            DeleteEvent::Asked { request: DeleteRequest::One(id), is_active: true },
        ) == DeleteAction::Stop(id),
        after_delete_event(
            DeleteEvent::Asked { request: DeleteRequest::One(id), is_active: false },
        ) == DeleteAction::DeleteSegment(id),
        after_delete_event(DeleteEvent::Asked { request: DeleteRequest::All(config), is_active })
            == DeleteAction::Store(config),
        after_delete_event(DeleteEvent::Stopped { id, outcome: Ok(()) })
            == DeleteAction::DeleteSegment(id),
        after_delete_event(DeleteEvent::Stopped { id, outcome: Err(err) }) == DeleteAction::Fail(
            err,
        ),
        after_delete_event(DeleteEvent::Stored(Ok(()))) is RemoveSegments,
        after_delete_event(DeleteEvent::Stored(Err(err))) == DeleteAction::Fail(err),
        after_delete_event(DeleteEvent::SegmentDeleted(Ok(result))) == DeleteAction::Announce(
            result,
        ),
        after_delete_event(DeleteEvent::SegmentDeleted(Err(err))) == DeleteAction::Fail(err),
        after_delete_event(DeleteEvent::SegmentsRemoved(Ok(result))) == DeleteAction::Sweep(result),
        after_delete_event(DeleteEvent::SegmentsRemoved(Err(err))) == DeleteAction::Fail(err),
        after_delete_event(DeleteEvent::Swept(Ok(result))) == DeleteAction::Announce(result),
        after_delete_event(DeleteEvent::Swept(Err(err))) == DeleteAction::Fail(err),
        after_delete_event(DeleteEvent::Announced(result)) == DeleteAction::Done(result),
{
}

/// A sweep goes item by item: a regular file adds its path, anything else adds nothing.
pub proof fn sweep_goes_item_by_item(items: Seq<FolderItem>, item: FolderItem)
    ensures
        regular_files(Seq::empty()) == Seq::<String>::empty(),
        item.is_file ==> regular_files(items.push(item)) == regular_files(items).push(item.path),
        !item.is_file ==> regular_files(items.push(item)) == regular_files(items),
{
    assert(items.push(item).drop_last() =~= items);
}

} // verus!
