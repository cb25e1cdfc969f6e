//! The stored segments: finding them, keeping them within age and size, and deleting them.

use crate::clock::{
    current_time, hours_before, is_kept, parse_stamp, stamp_time, survives, UtcTime, MIN_UTC_SECS,
};
use crate::config::{switched_off, ScreenMemoryConfig};
use crate::order::{
    first_records, newest_first_of, reversed, sort_newest_first, sorting_orders_by_date, Dated,
};
use crate::removal::{
    done_removals_took_every_file, failed_removal_is_the_last, is_course_of, is_metadata_file_of,
    Removal, RemovalAction, RemovalFile, Removals,
};
use crate::segment::{
    extension_is_read_back, extension_of, file_extension, media_file, metadata_file, safe_char,
    sanitized, sanitized_is_safe, segment_metadata_file, without_leading_dots,
    ScreenMemorySegmentMetadata,
};
use crate::text::{text_le, trim, trimmed};
use vstd::prelude::*;

verus! {

/// The folder that holds the segments, within the application's data folder.
pub const SCREEN_MEMORY_DIR: &'static str = "screen-memory";

/// The file that holds the events, within the storage folder.
pub const SCREEN_MEMORY_EVENTS_JSONL: &'static str = "events.jsonl";

/// A file of the storage folder. `metadata` is what was read from it, where it holds the metadata
/// of a segment, and `media_exists` tells whether that segment's recording is still there.
pub struct FolderEntry {
    pub path: String,
    pub file_name: String,
    pub metadata: Option<ScreenMemorySegmentMetadata>,
    pub media_exists: bool,
}

/// The files of the storage folder, sorted out.
pub struct FolderScan {
    /// The segments whose recording is still there.
    pub segments: Vec<ScreenMemorySegmentMetadata>,
    /// The metadata files that have outlived their recording, which are removed.
    pub stale: Vec<String>,
}

/// The file name is that of a metadata file.
pub open spec fn names_metadata(file_name: Seq<char>) -> bool {
    extension_of(file_name) == Some("json"@)
}

/// The entry is the metadata of a segment whose recording is still there.
pub open spec fn is_live(entry: FolderEntry) -> bool {
    names_metadata(entry.file_name@) && entry.metadata is Some
        && entry.media_exists
}

/// The entry is the metadata of a segment whose recording is gone.
pub open spec fn is_stale(entry: FolderEntry) -> bool {
    names_metadata(entry.file_name@) && entry.metadata is Some
        && !entry.media_exists
}

/// The segments whose recording is still there, in the order of their entries.
pub open spec fn live_segments(entries: Seq<FolderEntry>) -> Seq<ScreenMemorySegmentMetadata>
    decreases entries.len(),
{
    if entries.len() == 0 {
        Seq::empty()
    } else if is_live(entries.last()) {
        live_segments(entries.drop_last()).push(entries.last().metadata->0)
    } else {
        live_segments(entries.drop_last())
    }
}

/// The metadata files that have outlived their recording, in the order of their entries.
pub open spec fn stale_files(entries: Seq<FolderEntry>) -> Seq<String>
    decreases entries.len(),
{
    if entries.len() == 0 {
        Seq::empty()
    } else if is_stale(entries.last()) {
        stale_files(entries.drop_last()).push(entries.last().path)
    } else {
        stale_files(entries.drop_last())
    }
}

/// Whether a file of this name holds the metadata of a segment.
pub fn is_metadata_file(file_name: &str) -> (r: bool)
    ensures
        r == names_metadata(file_name@),
        r == (extension_of(file_name@) == Some("json"@)),
{
    match file_extension(file_name) {
        Some(extension) => {
            let json = "json".to_string();
            extension == json
        },
        None => false,
    }
}

proof fn entry_is_sorted_out(entries: Seq<FolderEntry>, i: int)
    requires
        0 <= i < entries.len(),
        extension_of(entries[i].file_name@) == Some("json"@),
        entries[i].metadata is Some,
    ensures
        entries[i].media_exists ==> live_segments(entries).contains(entries[i].metadata->0),
        !entries[i].media_exists ==> stale_files(entries).contains(entries[i].path),
    decreases entries.len(),
{
    let rest = entries.drop_last();
    let (live, stale) = (live_segments(rest), stale_files(rest));
    if i < entries.len() - 1 {
        entry_is_sorted_out(rest, i);
        if entries[i].media_exists {
            let k = choose|k: int| 0 <= k < live.len() && live[k] == entries[i].metadata->0;
            assert(live_segments(entries)[k] == entries[i].metadata->0);
        } else {
            let k = choose|k: int| 0 <= k < stale.len() && stale[k] == entries[i].path;
            assert(stale_files(entries)[k] == entries[i].path);
        }
    } else if entries[i].media_exists {
        assert(live_segments(entries)[live.len() as int] == entries[i].metadata->0);
    } else {
        assert(stale_files(entries)[stale.len() as int] == entries[i].path);
    }
}

/// Sorts out the files of the storage folder. Files of other kinds, and metadata that cannot be
/// read, are passed over.
pub fn scan_folder(entries: Vec<FolderEntry>) -> (r: FolderScan)
    ensures
        r.segments@ == live_segments(entries@),
        r.stale@ == stale_files(entries@),
        forall|i: int|
            0 <= i < entries@.len() && extension_of((#[trigger] entries@[i]).file_name@) == Some(
                "json"@,
            ) ==> (entries@[i].metadata matches Some(segment) ==> (entries@[i].media_exists
                ==> r.segments@.contains(segment)) && (!entries@[i].media_exists
                ==> r.stale@.contains(entries@[i].path))),
{
    let ghost all = entries@;
    let mut segments: Vec<ScreenMemorySegmentMetadata> = Vec::new();
    let mut stale: Vec<String> = Vec::new();
    let mut rest = reversed(entries);
    let ghost mut done: int = 0;
    while rest.len() > 0
        invariant
            0 <= done <= all.len(),
            rest@ == all.skip(done).reverse(),
            segments@ == live_segments(all.take(done)),
            stale@ == stale_files(all.take(done)),
        decreases rest.len(),
    {
        match rest.pop() {
            Some(entry) => {
                assert(entry == all[done]);
                assert(all.take(done + 1).drop_last() =~= all.take(done));
                assert(all.skip(done + 1).reverse() =~= all.skip(done).reverse().drop_last());
                if is_metadata_file(entry.file_name.as_str()) {
                    match entry.metadata {
                        Some(segment) => {
                            if entry.media_exists {
                                segments.push(segment);
                            } else {
                                stale.push(entry.path);
                            }
                        },
                        None => {},
                    }
                }
                proof {
                    done = done + 1;
                }
            },
            None => {},
        }
    }
    assert(all.take(done) =~= all);
    proof {
        assert forall|i: int|
            0 <= i < all.len() && extension_of((#[trigger] all[i]).file_name@) == Some(
                "json"@,
            ) && all[i].metadata is Some implies (all[i].media_exists ==> segments@.contains(
            all[i].metadata->0,
        )) && (!all[i].media_exists ==> stale@.contains(all[i].path)) by {
            entry_is_sorted_out(all, i);
        }
    }
    FolderScan { segments, stale }
}

/// The stored segments, newest first, `limit` of them at most.
pub fn recent_segments(found: Vec<ScreenMemorySegmentMetadata>, limit: Option<usize>) -> (r: Vec<
    ScreenMemorySegmentMetadata,
>)
    ensures
        r@ == (match limit {
            Some(limit) => first_records(newest_first_of(found@), limit as int),
            None => newest_first_of(found@),
        }),
        forall|i: int, j: int|
            0 <= i <= j < r@.len() ==> text_le(
                (#[trigger] r@[j]).ended_at@,
                (#[trigger] r@[i]).ended_at@,
            ),
        forall|i: int| 0 <= i < r@.len() ==> found@.contains(#[trigger] r@[i]),
        limit is None ==> r@.to_multiset() == found@.to_multiset(),
        limit matches Some(limit) ==> r@.len() == (if limit < found@.len() {
            limit as int
        } else {
            found@.len() as int
        }),
        limit matches Some(limit) ==> forall|old: int|
            0 <= old < found@.len() && !r@.contains(#[trigger] found@[old]) ==> forall|i: int|
                0 <= i < r@.len() ==> text_le(found@[old].ended_at@, (#[trigger] r@[i]).ended_at@),
{
    let mut segments = sort_newest_first(found);
    let ghost sorted = segments@;
    match limit {
        Some(limit) => {
            segments.truncate(limit);
        },
        None => {},
    }
    proof {
        sorting_orders_by_date(found@);
        assert forall|i: int, j: int| 0 <= i <= j < segments@.len() implies text_le(
            (#[trigger] segments@[j]).ended_at@,
            (#[trigger] segments@[i]).ended_at@,
        ) by {
            assert(text_le(sorted[j].date(), sorted[i].date()));
        }
        assert forall|i: int| 0 <= i < segments@.len() implies found@.contains(
            #[trigger] segments@[i],
        ) by {
            assert(sorted.contains(sorted[i]));
        }
        assert forall|old: int, i: int|
            0 <= old < found@.len() && !segments@.contains(found@[old]) && 0 <= i
                < segments@.len() implies text_le(
            (#[trigger] found@[old]).ended_at@,
            (#[trigger] segments@[i]).ended_at@,
        ) by {
            assert(found@.contains(found@[old]));
            assert(sorted.contains(found@[old]));
            let k = choose|k: int| 0 <= k < sorted.len() && sorted[k] == found@[old];
            if k < segments@.len() {
                assert(segments@[k] == found@[old]);
            }
            assert(text_le(sorted[k].date(), sorted[i].date()));
        }
    }
    segments
}

/// The stored segments that the user asks for, newest first.
pub fn screen_memory_recent_segments(
    found: Vec<ScreenMemorySegmentMetadata>,
    limit: Option<usize>,
) -> (r: Vec<ScreenMemorySegmentMetadata>)
    ensures
        r@ == (match limit {
            Some(limit) => first_records(newest_first_of(found@), limit as int),
            None => newest_first_of(found@),
        }),
        forall|i: int, j: int|
            0 <= i <= j < r@.len() ==> text_le(
                (#[trigger] r@[j]).ended_at@,
                (#[trigger] r@[i]).ended_at@,
            ),
        forall|i: int| 0 <= i < r@.len() ==> found@.contains(#[trigger] r@[i]),
        limit is None ==> r@.to_multiset() == found@.to_multiset(),
        limit matches Some(limit) ==> r@.len() == (if limit < found@.len() {
            limit as int
        } else {
            found@.len() as int
        }),
        limit matches Some(limit) ==> forall|old: int|
            0 <= old < found@.len() && !r@.contains(#[trigger] found@[old]) ==> forall|i: int|
                0 <= i < r@.len() ==> text_le(found@[old].ended_at@, (#[trigger] r@[i]).ended_at@),
{
    recent_segments(found, limit)
}

/// The bytes that the recordings take together.
pub open spec fn total_bytes(segments: Seq<ScreenMemorySegmentMetadata>) -> int
    decreases segments.len(),
{
    if segments.len() == 0 {
        0
    } else {
        total_bytes(segments.drop_last()) + segments.last().bytes
    }
}

/// What a 64-bit counter shows for `bytes`: it stops at its highest value.
pub open spec fn counted(bytes: int) -> int {
    if bytes > u64::MAX {
        u64::MAX as int
    } else {
        bytes
    }
}

/// What pruning looks at in a segment: when it ended, if that can be told, and its size.
#[derive(Clone, Copy)]
pub struct SegmentAge {
    pub ended: Option<UtcTime>,
    pub bytes: u64,
}

/// The bytes that the recordings take together.
pub open spec fn total_age_bytes(ages: Seq<SegmentAge>) -> int
    decreases ages.len(),
{
    if ages.len() == 0 {
        0
    } else {
        total_age_bytes(ages.drop_last()) + ages.last().bytes
    }
}

/// The oldest of the segments, which are newest first, has to go: it is too old, or together with
/// all newer ones it takes more than `max_bytes`.
pub open spec fn oldest_goes(ages: Seq<SegmentAge>, cutoff: UtcTime, max_bytes: u64) -> bool {
    !survives(ages.last().ended, cutoff) || counted(total_age_bytes(ages)) > max_bytes
}

/// Which of the segments, newest first, have to go.
pub fn prune_choices(ages: &Vec<SegmentAge>, cutoff: UtcTime, max_bytes: u64) -> (r: Vec<bool>)
    ensures
        r@.len() == ages@.len(),
        forall|i: int|
            0 <= i < r@.len() ==> #[trigger] r@[i] == oldest_goes(
                ages@.take(i + 1),
                cutoff,
                max_bytes,
            ),
{
    let mut choices: Vec<bool> = Vec::new();
    let mut kept_bytes: u64 = 0;
    let mut i: usize = 0;
    while i < ages.len()
        invariant
            i <= ages.len(),
            kept_bytes == counted(total_age_bytes(ages@.take(i as int))),
            choices@.len() == i,
            forall|k: int|
                0 <= k < i ==> #[trigger] choices@[k] == oldest_goes(
                    ages@.take(k + 1),
                    cutoff,
                    max_bytes,
                ),
        decreases ages.len() - i,
    {
        let age = ages[i];
        assert(ages@.take(i + 1).drop_last() =~= ages@.take(i as int));
        proof {
            total_age_bytes_is_not_negative(ages@.take(i as int));
        }
        let expired = !is_kept(age.ended, cutoff);
        kept_bytes = kept_bytes.saturating_add(age.bytes);
        choices.push(expired || kept_bytes > max_bytes);
        i += 1;
    }
    choices
}

proof fn total_age_bytes_is_not_negative(ages: Seq<SegmentAge>)
    ensures
        total_age_bytes(ages) >= 0,
    decreases ages.len(),
{
    if ages.len() > 0 {
        total_age_bytes_is_not_negative(ages.drop_last());
    }
}

/// What pruning looks at in segments.
pub open spec fn ages_of(segments: Seq<ScreenMemorySegmentMetadata>) -> Seq<SegmentAge> {
    segments.map_values(
        |segment: ScreenMemorySegmentMetadata|
            SegmentAge { ended: stamp_time(segment.ended_at@), bytes: segment.bytes },
    )
}

proof fn ages_have_the_same_bytes(segments: Seq<ScreenMemorySegmentMetadata>)
    ensures
        total_age_bytes(ages_of(segments)) == total_bytes(segments),
    decreases segments.len(),
{
    if segments.len() > 0 {
        ages_have_the_same_bytes(segments.drop_last());
        assert(ages_of(segments).drop_last() =~= ages_of(segments.drop_last()));
    }
}

/// The oldest of the segments, which are newest first, has to go: it is too old, or together with
/// all newer ones it takes more than `max_bytes`.
pub open spec fn oldest_is_pruned(
    segments: Seq<ScreenMemorySegmentMetadata>,
    cutoff: UtcTime,
    max_bytes: u64,
) -> bool {
    !survives(stamp_time(segments.last().ended_at@), cutoff) || counted(total_bytes(segments))
        > max_bytes
}

/// The segments that have to go, newest first.
pub open spec fn pruned_segments(
    segments: Seq<ScreenMemorySegmentMetadata>,
    cutoff: UtcTime,
    max_bytes: u64,
) -> Seq<ScreenMemorySegmentMetadata>
    decreases segments.len(),
{
    if segments.len() == 0 {
        segments
    } else if oldest_is_pruned(segments, cutoff, max_bytes) {
        pruned_segments(segments.drop_last(), cutoff, max_bytes).push(segments.last())
    } else {
        pruned_segments(segments.drop_last(), cutoff, max_bytes)
    }
}

/// The segments that stay, newest first.
pub open spec fn kept_segments(
    segments: Seq<ScreenMemorySegmentMetadata>,
    cutoff: UtcTime,
    max_bytes: u64,
) -> Seq<ScreenMemorySegmentMetadata>
    decreases segments.len(),
{
    if segments.len() == 0 {
        segments
    } else if oldest_is_pruned(segments, cutoff, max_bytes) {
        kept_segments(segments.drop_last(), cutoff, max_bytes)
    } else {
        kept_segments(segments.drop_last(), cutoff, max_bytes).push(segments.last())
    }
}

/// The ids of segments.
pub open spec fn ids_of(segments: Seq<ScreenMemorySegmentMetadata>) -> Seq<String> {
    segments.map_values(|segment: ScreenMemorySegmentMetadata| segment.id)
}

/// The ids of the segments that have to go under `config` at `now`. `segments` are newest first.
pub fn prune_segments_at(
    segments: &Vec<ScreenMemorySegmentMetadata>,
    config: &ScreenMemoryConfig,
    now: UtcTime,
) -> (r: Vec<String>)
    requires
        now.is_clock_time(),
        now.secs - config.retention_hours * 3600 >= MIN_UTC_SECS,
    ensures
        r@ == ids_of(
            pruned_segments(
                segments@,
                now.minus_secs(config.retention_hours * 3600),
                config.max_bytes,
            ),
        ),
        forall|i: int|
            0 <= i < segments@.len() && (stamp_time((#[trigger] segments@[i]).ended_at@) matches Some(
                at,
            ) && (at.secs < now.secs - config.retention_hours * 3600 || (at.secs == now.secs
                - config.retention_hours * 3600 && at.nanos < now.nanos))) ==> r@.contains(
                segments@[i].id,
            ),
        forall|i: int|
            0 <= i < segments@.len() && total_bytes(segments@.take(i + 1)) > config.max_bytes
                && config.max_bytes < u64::MAX ==> r@.contains((#[trigger] segments@[i]).id),
        forall|k: int|
            0 <= k < r@.len() ==> has_to_go(#[trigger] r@[k], segments@, *config, now),
{
    let cutoff = hours_before(now, config.retention_hours);
    let mut ages: Vec<SegmentAge> = Vec::new();
    let mut n: usize = 0;
    while n < segments.len()
        invariant
            n <= segments.len(),
            ages@ == ages_of(segments@.take(n as int)),
        decreases segments.len() - n,
    {
        let segment = &segments[n];
        ages.push(
            SegmentAge { ended: parse_stamp(segment.ended_at.as_str()), bytes: segment.bytes },
        );
        assert(segments@.take(n + 1) =~= segments@.take(n as int).push(*segment));
        assert(ages@ =~= ages_of(segments@.take(n + 1)));
        n += 1;
    }
    assert(segments@.take(n as int) =~= segments@);
    let choices = prune_choices(&ages, cutoff, config.max_bytes);
    let mut ids: Vec<String> = Vec::new();
    let mut i: usize = 0;
    assert(ids@ =~= ids_of(pruned_segments(segments@.take(0), cutoff, config.max_bytes)));
    while i < segments.len()
        invariant
            i <= segments.len(),
            ages@ == ages_of(segments@),
            choices@.len() == segments@.len(),
            forall|k: int|
                0 <= k < choices@.len() ==> #[trigger] choices@[k] == oldest_goes(
                    ages@.take(k + 1),
                    cutoff,
                    config.max_bytes,
                ),
            ids@ == ids_of(pruned_segments(segments@.take(i as int), cutoff, config.max_bytes)),
        decreases segments.len() - i,
    {
        let segment = &segments[i];
        let ghost upto = segments@.take(i + 1);
        proof {
            assert(upto.drop_last() =~= segments@.take(i as int));
            assert(ages@.take(i + 1) =~= ages_of(upto));
            ages_have_the_same_bytes(upto);
            assert(choices@[i as int] == oldest_is_pruned(upto, cutoff, config.max_bytes));
        }
        if choices[i] {
            ids.push(segment.id.clone());
            proof {
                let before = pruned_segments(segments@.take(i as int), cutoff, config.max_bytes);
                assert(ids_of(before.push(*segment)) =~= ids_of(before).push(segment.id));
            }
        }
        i += 1;
    }
    assert(segments@.take(i as int) =~= segments@);
    proof {
        pruned_ids_are_those_that_have_to_go(segments@, *config, now);
    }
    ids
}

/// The ids of the stored segments that have to go now under `config`.
pub fn prune_segments(
    found: Vec<ScreenMemorySegmentMetadata>,
    config: &ScreenMemoryConfig,
) -> (r: Vec<String>)
    requires
        config.retention_hours * 3600 <= -MIN_UTC_SECS,
    ensures
        exists|now: UtcTime|
            #[trigger] now.shown_by_clock() && now.is_clock_time() && r@ == ids_of(
                pruned_segments(
                    newest_first_of(found@),
                    now.minus_secs(config.retention_hours * 3600),
                    config.max_bytes,
                ),
            ) && (forall|i: int|
                0 <= i < found@.len() && (stamp_time((#[trigger] found@[i]).ended_at@) matches Some(
                    at,
                ) && at.secs < now.secs - config.retention_hours * 3600) ==> r@.contains(
                    found@[i].id,
                )) && (forall|k: int|
                0 <= k < r@.len() ==> has_to_go(
                    #[trigger] r@[k],
                    newest_first_of(found@),
                    *config,
                    now,
                )),
{
    let segments = recent_segments(found, None);
    let now = current_time();
    assert(now.shown_by_clock());
    let ids = prune_segments_at(&segments, config, now);
    proof {
        sorting_orders_by_date(found@);
        assert forall|i: int|
            0 <= i < found@.len() && (stamp_time((#[trigger] found@[i]).ended_at@) matches Some(at)
                && at.secs < now.secs - config.retention_hours * 3600) implies ids@.contains(
            found@[i].id,
        ) by {
            assert(found@.contains(found@[i]));
            assert(segments@.contains(found@[i]));
            let k = choose|k: int| 0 <= k < segments@.len() && segments@[k] == found@[i];
            assert(ids@.contains(segments@[k].id));
        }
    }
    ids
}

/// `id` is that of a segment, among those that are newest first, which ended before the retention
/// time began or does not fit into the size limit together with all newer ones.
pub open spec fn has_to_go(
    id: String,
    segments: Seq<ScreenMemorySegmentMetadata>,
    config: ScreenMemoryConfig,
    now: UtcTime,
) -> bool {
    exists|i: int|
        0 <= i < segments.len() && id == (#[trigger] segments[i]).id && ((stamp_time(
            segments[i].ended_at@,
        ) matches Some(at) && (at.secs < now.secs - config.retention_hours * 3600 || (at.secs
            == now.secs - config.retention_hours * 3600 && at.nanos < now.nanos))) || (total_bytes(
            segments.take(i + 1),
        ) > config.max_bytes && config.max_bytes < u64::MAX))
}

proof fn pruned_when_it_has_to_go(
    segments: Seq<ScreenMemorySegmentMetadata>,
    cutoff: UtcTime,
    max_bytes: u64,
    i: int,
)
    requires
        0 <= i < segments.len(),
        oldest_is_pruned(segments.take(i + 1), cutoff, max_bytes),
    ensures
        pruned_segments(segments, cutoff, max_bytes).contains(segments[i]),
    decreases segments.len(),
{
    let rest = segments.drop_last();
    let before = pruned_segments(rest, cutoff, max_bytes);
    if i == segments.len() - 1 {
        assert(segments.take(i + 1) =~= segments);
        assert(before.push(segments.last())[before.len() as int] == segments[i]);
    } else {
        assert(rest.take(i + 1) =~= segments.take(i + 1));
        pruned_when_it_has_to_go(rest, cutoff, max_bytes, i);
        let k = choose|k: int| 0 <= k < before.len() && before[k] == rest[i];
        assert(pruned_segments(segments, cutoff, max_bytes)[k] == segments[i]);
    }
}

proof fn pruned_only_when_it_has_to_go(
    segments: Seq<ScreenMemorySegmentMetadata>,
    cutoff: UtcTime,
    max_bytes: u64,
    k: int,
) -> (i: int)
    requires
        0 <= k < pruned_segments(segments, cutoff, max_bytes).len(),
    ensures
        0 <= i < segments.len(),
        segments[i] == pruned_segments(segments, cutoff, max_bytes)[k],
        oldest_is_pruned(segments.take(i + 1), cutoff, max_bytes),
    decreases segments.len(),
{
    let rest = segments.drop_last();
    let before = pruned_segments(rest, cutoff, max_bytes);
    if k < before.len() {
        let i = pruned_only_when_it_has_to_go(rest, cutoff, max_bytes, k);
        assert(rest.take(i + 1) =~= segments.take(i + 1));
        i
    } else {
        assert(segments.take(segments.len() as int) =~= segments);
        segments.len() - 1
    }
}

/// Pruning gives the ids of exactly those segments that ended before the retention time began, or
/// that do not fit into the size limit together with all newer ones. Against a limit at the counter's
/// highest value everything fits.
pub proof fn pruned_ids_are_those_that_have_to_go(
    segments: Seq<ScreenMemorySegmentMetadata>,
    config: ScreenMemoryConfig,
    now: UtcTime,
)
    requires
        now.is_clock_time(),
        now.secs - config.retention_hours * 3600 >= MIN_UTC_SECS,
    ensures
        ({
            let ids = ids_of(
                pruned_segments(
                    segments,
                    now.minus_secs(config.retention_hours * 3600),
                    config.max_bytes,
                ),
            );
            &&& forall|i: int|
                0 <= i < segments.len() && (stamp_time((#[trigger] segments[i]).ended_at@)
                    matches Some(at) && (at.secs < now.secs - config.retention_hours * 3600 || (
                at.secs == now.secs - config.retention_hours * 3600 && at.nanos < now.nanos)))
                    ==> ids.contains(segments[i].id)
            &&& forall|i: int|
                0 <= i < segments.len() && total_bytes(segments.take(i + 1)) > config.max_bytes
                    && config.max_bytes < u64::MAX ==> ids.contains((#[trigger] segments[i]).id)
            &&& forall|k: int|
                0 <= k < ids.len() ==> has_to_go(#[trigger] ids[k], segments, config, now)
        }),
{
    let cutoff = now.minus_secs(config.retention_hours * 3600);
    let pruned = pruned_segments(segments, cutoff, config.max_bytes);
    let ids = ids_of(pruned);
    assert forall|i: int|
        0 <= i < segments.len() && oldest_is_pruned(
            segments.take(i + 1),
            cutoff,
            config.max_bytes,
        ) implies ids.contains((#[trigger] segments[i]).id) by {
        pruned_when_it_has_to_go(segments, cutoff, config.max_bytes, i);
        let k = choose|k: int| 0 <= k < pruned.len() && pruned[k] == segments[i];
        assert(ids[k] == segments[i].id);
    }
    assert forall|i: int| 0 <= i < segments.len() implies (#[trigger] segments.take(i + 1)).last()
        == segments[i] by {}
    assert forall|k: int| 0 <= k < ids.len() implies has_to_go(
        #[trigger] ids[k],
        segments,
        config,
        now,
    ) by {
        let i = pruned_only_when_it_has_to_go(segments, cutoff, config.max_bytes, k);
        assert(ids[k] == segments[i].id);
    }
}

/// Segments that are pruned one after the other.
pub struct Pruning {
    pub ids: Vec<String>,
    /// The number of the segment whose turn it is.
    pub next: usize,
}

/// What has to be done next about pruning.
pub enum PruneAction {
    /// Delete the segment with this id.
    Delete(String),
    /// Every segment that had to go was tried.
    Done,
}

impl Pruning {
    /// A segment is still to be tried.
    pub open spec fn has_segment_left(self) -> bool {
        self.next < self.ids@.len()
    }

    /// What has to be done next: delete the segment whose turn it is.
    pub open spec fn action(self) -> PruneAction {
        if self.has_segment_left() {
            PruneAction::Delete(self.ids@[self.next as int])
        } else {
            PruneAction::Done
        }
    }

    /// The pruning of the segments with these ids.
    pub fn of(ids: Vec<String>) -> (r: Pruning)
        ensures
            r.ids == ids,
            r.next == 0,
    {
        Pruning { ids, next: 0 }
    }

    /// What has to be done first.
    pub fn next_action(&self) -> (r: PruneAction)
        ensures
            r == self.action(),
    {
        if self.next < self.ids.len() {
            PruneAction::Delete(self.ids[self.next].clone())
        } else {
            PruneAction::Done
        }
    }

    /// Decides what follows the deletion of the segment whose turn it was. Whatever came of it, the
    /// next one is tried: what cannot be deleted stays.
    pub fn after_deletion(&mut self, outcome: Result<ScreenMemoryDeleteResult, String>) -> (r:
        PruneAction)
        requires
            old(self).has_segment_left(),
        ensures
            final(self).ids == old(self).ids,
            final(self).next == old(self).next + 1,
            r == final(self).action(),
            old(self).next + 1 < old(self).ids@.len() ==> r == PruneAction::Delete(
                old(self).ids@[old(self).next + 1],
            ),
            old(self).next + 1 == old(self).ids@.len() ==> r is Done,
    {
        assert(self.next < self.ids.len());
        self.next = self.next + 1;
        self.next_action()
    }
}

proof fn total_bytes_is_not_negative(segments: Seq<ScreenMemorySegmentMetadata>)
    ensures
        total_bytes(segments) >= 0,
    decreases segments.len(),
{
    if segments.len() > 0 {
        total_bytes_is_not_negative(segments.drop_last());
    }
}

/// What a deletion did away with.
#[derive(Clone, Copy, Debug, PartialEq, Eq, Structural)]
pub struct ScreenMemoryDeleteResult {
    pub deleted_segments: usize,
    pub deleted_bytes: u64,
}

/// What the user asks to have deleted.
pub enum DeleteRequest {
    /// The segment with this id.
    One(String),
    /// Everything, once these settings are stored.
    All(ScreenMemoryConfig),
}

/// What is deleted when the user names `segment_id`: without an id, or with a blank one, everything.
pub fn screen_memory_delete(segment_id: Option<String>, current: ScreenMemoryConfig) -> (r:
    DeleteRequest)
    ensures
        match segment_id {
            Some(id) => if trimmed(id@).len() > 0 {
                r matches DeleteRequest::One(named) && named@ == trimmed(id@)
            } else {
                r == DeleteRequest::All(current.switched(false, false))
            },
            None => r == DeleteRequest::All(current.switched(false, false)),
        },
        r matches DeleteRequest::All(config) ==> !config.enabled && !config.paused
            && config.retention_hours == current.retention_hours && config.max_bytes
            == current.max_bytes && config.segment_seconds == current.segment_seconds
            && config.sample_interval_seconds == current.sample_interval_seconds,
{
    match segment_id {
        Some(id) => {
            let named = trim(id.as_str());
            if named.as_str().is_empty() {
                DeleteRequest::All(switched_off(current))
            } else {
                DeleteRequest::One(named)
            }
        },
        None => DeleteRequest::All(switched_off(current)),
    }
}

/// What is deleted when the user asks for everything to go.
pub fn screen_memory_delete_all(current: ScreenMemoryConfig) -> (r: DeleteRequest)
    ensures
        r == DeleteRequest::All(current.switched(false, false)),
{
    screen_memory_delete(None, current)
}

/// `removals` delete the segment with this id, whose metadata file gave `metadata`: the recording
/// goes before the metadata file. Where the metadata could not be read, only the metadata file goes
/// and nothing is counted.
pub open spec fn is_deletion_of(
    removals: Removals,
    segment_id: Seq<char>,
    metadata: Option<ScreenMemorySegmentMetadata>,
) -> bool {
    &&& removals.next == 0
    &&& match metadata {
        Some(segment) => {
            &&& removals.files@.len() == 2
            &&& removals.files@[0] == RemovalFile::Path(segment.path)
            &&& is_metadata_file_of(removals.files@[1], segment_id)
            &&& removals.result.deleted_segments == 1
            &&& removals.result.deleted_bytes == segment.bytes
        },
        None => {
            &&& removals.files@.len() == 1
            &&& is_metadata_file_of(removals.files@[0], segment_id)
            &&& removals.result.deleted_segments == 0
            &&& removals.result.deleted_bytes == 0
        },
    }
}

/// The deletion of the segment with this id, whose metadata file gave `metadata`.
pub fn delete_segment(segment_id: &str, metadata: Option<ScreenMemorySegmentMetadata>) -> (r:
    Removals)
    ensures
        is_deletion_of(r, segment_id@, metadata),
        r.next == 0,
        r.files@.last() matches RemovalFile::Metadata(name) && name@ == sanitized(segment_id@)
            + ".json"@,
        metadata matches Some(segment) ==> r.files@.len() == 2 && r.files@[0] == RemovalFile::Path(
            segment.path,
        ) && r.result.deleted_segments == 1 && r.result.deleted_bytes == segment.bytes,
        metadata is None ==> r.files@.len() == 1 && r.result.deleted_segments == 0
            && r.result.deleted_bytes == 0,
{
    let mut files: Vec<RemovalFile> = Vec::new();
    let result = match metadata {
        Some(segment) => {
            files.push(RemovalFile::Path(segment.path));
            ScreenMemoryDeleteResult { deleted_segments: 1, deleted_bytes: segment.bytes }
        },
        None => ScreenMemoryDeleteResult { deleted_segments: 0, deleted_bytes: 0 },
    };
    files.push(RemovalFile::Metadata(segment_metadata_file(segment_id)));
    Removals { files, next: 0, result }
}

/// `files` are those of `segments`: segment by segment, the recording before the metadata file.
pub open spec fn are_files_of(
    files: Seq<RemovalFile>,
    segments: Seq<ScreenMemorySegmentMetadata>,
) -> bool {
    &&& files.len() == 2 * segments.len()
    &&& forall|i: int|
        0 <= i < segments.len() ==> files[2 * i] == RemovalFile::Path(
            (#[trigger] segments[i]).path,
        ) && is_metadata_file_of(files[2 * i + 1], segments[i].id@)
}

/// The bytes of segments do not depend on their order.
pub proof fn same_segments_take_the_same_bytes(
    a: Seq<ScreenMemorySegmentMetadata>,
    b: Seq<ScreenMemorySegmentMetadata>,
)
    requires
        a.to_multiset() == b.to_multiset(),
    ensures
        total_bytes(a) == total_bytes(b),
    decreases a.len(),
{
    broadcast use vstd::seq_lib::group_to_multiset_ensures;

    if a.len() == 0 {
        assert(a.to_multiset().len() == a.len());
        assert(b.to_multiset().len() == b.len());
    } else {
        let x = a.last();
        assert(a.contains(x));
        assert(a.to_multiset().count(x) > 0);
        assert(b.contains(x));
        let k = choose|k: int| 0 <= k < b.len() && b[k] == x;
        let rest = b.remove(k);
        assert(a.drop_last() =~= a.remove(a.len() - 1));
        same_segments_take_the_same_bytes(a.drop_last(), rest);
        bytes_of_parts(b.take(k), seq![x] + b.skip(k + 1));
        bytes_of_parts(seq![x], b.skip(k + 1));
        bytes_of_parts(b.take(k), b.skip(k + 1));
        assert(b =~= b.take(k) + (seq![x] + b.skip(k + 1)));
        assert(rest =~= b.take(k) + b.skip(k + 1));
        assert(seq![x].drop_last() =~= Seq::<ScreenMemorySegmentMetadata>::empty());
        assert(total_bytes(Seq::<ScreenMemorySegmentMetadata>::empty()) == 0);
        assert(total_bytes(seq![x]) == x.bytes);
    }
}

/// The bytes of segments are the sum of the bytes of each.
pub proof fn bytes_of_parts(
    a: Seq<ScreenMemorySegmentMetadata>,
    b: Seq<ScreenMemorySegmentMetadata>,
)
    ensures
        total_bytes(a + b) == total_bytes(a) + total_bytes(b),
        b.len() == 0 ==> total_bytes(b) == 0,
        b.len() == 1 ==> total_bytes(b) == b[0].bytes,
    decreases b.len(),
{
    if b.len() == 0 {
        assert(a + b =~= a);
    } else {
        assert((a + b).drop_last() =~= a + b.drop_last());
        bytes_of_parts(a, b.drop_last());
    }
}

/// The deletion of all stored segments, newest first.
pub fn delete_all_segments(found: Vec<ScreenMemorySegmentMetadata>) -> (r: Removals)
    ensures
        r.next == 0,
        are_files_of(r.files@, newest_first_of(found@)),
        r.result.deleted_segments == newest_first_of(found@).len(),
        r.result.deleted_bytes == counted(total_bytes(newest_first_of(found@))),
        r.result.deleted_segments == found@.len(),
        r.files@.len() == 2 * found@.len(),
        r.result.deleted_bytes == (if total_bytes(found@) > u64::MAX {
            u64::MAX as int
        } else {
            total_bytes(found@)
        }),
{
    let ghost all = newest_first_of(found@);
    let mut rest = reversed(recent_segments(found, None));
    let mut files: Vec<RemovalFile> = Vec::new();
    let mut deleted_segments: usize = 0;
    let mut deleted_bytes: u64 = 0;
    let ghost mut done: int = 0;
    let total: usize = rest.len();
    while rest.len() > 0
        invariant
            0 <= done <= all.len(),
            total == all.len(),
            rest@ == all.skip(done).reverse(),
            are_files_of(files@, all.take(done)),
            deleted_segments == done,
            deleted_bytes == counted(total_bytes(all.take(done))),
        decreases rest.len(),
    {
        match rest.pop() {
            Some(segment) => {
                let ghost before = files@;
                assert(segment == all[done]);
                assert(all.take(done + 1).drop_last() =~= all.take(done));
                assert(all.skip(done + 1).reverse() =~= all.skip(done).reverse().drop_last());
                proof {
                    total_bytes_is_not_negative(all.take(done));
                }
                deleted_bytes = deleted_bytes.saturating_add(segment.bytes);
                let name = segment_metadata_file(segment.id.as_str());
                files.push(RemovalFile::Path(segment.path));
                files.push(RemovalFile::Metadata(name));
                deleted_segments += 1;
                proof {
                    let upto = all.take(done + 1);
                    assert forall|i: int| 0 <= i < upto.len() implies files@[2 * i]
                        == RemovalFile::Path((#[trigger] upto[i]).path) && is_metadata_file_of(
                        files@[2 * i + 1],
                        upto[i].id@,
                    ) by {
                        if i < done {
                            assert(upto[i] == all.take(done)[i]);
                            assert(files@[2 * i] == before[2 * i]);
                            assert(files@[2 * i + 1] == before[2 * i + 1]);
                        }
                    }
                    done = done + 1;
                }
            },
            None => {},
        }
    }
    assert(all.take(done) =~= all);
    proof {
        sorting_orders_by_date(found@);
        same_segments_take_the_same_bytes(all, found@);
    }
    Removals {
        files,
        next: 0,
        result: ScreenMemoryDeleteResult { deleted_segments, deleted_bytes },
    }
}

/// Where its recording cannot be removed, a segment keeps its metadata file: nothing but the
/// recording was touched, so the deletion can be tried again.
pub proof fn failed_deletion_keeps_metadata(
    removals: Removals,
    segment_id: Seq<char>,
    segment: ScreenMemorySegmentMetadata,
    outcomes: Seq<Removal>,
)
    requires
        is_deletion_of(removals, segment_id, Some(segment)),
        is_course_of(removals, outcomes),
        outcomes.len() > 0,
        outcomes[0] is Failed,
    ensures
        outcomes.len() == 1,
        removals.action() == RemovalAction::Remove(RemovalFile::Path(segment.path)),
        is_metadata_file_of(removals.files@[1], segment_id),
{
    failed_removal_is_the_last(removals, outcomes, 0);
}

/// A deletion that is done has made sure of the metadata file, and of the recording where one was
/// known: each was removed or was not there.
pub proof fn done_deletion_took_both_files(
    removals: Removals,
    segment_id: Seq<char>,
    metadata: Option<ScreenMemorySegmentMetadata>,
    outcomes: Seq<Removal>,
)
    requires
        is_deletion_of(removals, segment_id, metadata),
        is_course_of(removals, outcomes),
        outcomes.len() > 0 ==> !(outcomes.last() is Failed),
        removals.advanced(outcomes.len() as int).action() is Done,
    ensures
        outcomes.len() == removals.files@.len(),
        forall|i: int| 0 <= i < outcomes.len() ==> !(#[trigger] outcomes[i] is Failed),
        is_metadata_file_of(removals.files@[outcomes.len() - 1], segment_id),
        metadata matches Some(segment) ==> removals.files@[0] == RemovalFile::Path(segment.path),
        metadata is None ==> forall|i: int|
            0 <= i < removals.files@.len() ==> !(#[trigger] removals.files@[i] is Path),
{
    done_removals_took_every_file(removals, outcomes);
}

/// What is read of the segment with this id from the files of the storage folder.
pub open spec fn stored_metadata(entries: Seq<FolderEntry>, segment_id: Seq<char>) -> Option<
    ScreenMemorySegmentMetadata,
> {
    if exists|i: int|
        0 <= i < entries.len() && (#[trigger] entries[i]).file_name@ == metadata_file(segment_id) {
        let i = choose|i: int|
            0 <= i < entries.len() && (#[trigger] entries[i]).file_name@ == metadata_file(
                segment_id,
            );
        entries[i].metadata
    } else {
        None
    }
}

/// What is in the storage folder once the metadata file of the segment with this id is gone.
pub open spec fn without_metadata_file(
    entries: Seq<FolderEntry>,
    segment_id: Seq<char>,
) -> Seq<FolderEntry> {
    entries.filter(|entry: FolderEntry| entry.file_name@ != metadata_file(segment_id))
}

/// Deleting a segment a second time counts nothing and touches no recording.
pub proof fn second_deletion_counts_nothing(
    entries: Seq<FolderEntry>,
    segment_id: Seq<char>,
    removals: Removals,
)
    requires
        is_deletion_of(
            removals,
            segment_id,
            stored_metadata(without_metadata_file(entries, segment_id), segment_id),
        ),
    ensures
        removals.result.deleted_segments == 0,
        removals.result.deleted_bytes == 0,
        removals.files@.len() == 1,
        is_metadata_file_of(removals.files@[0], segment_id),
{
    let left = without_metadata_file(entries, segment_id);
    let stays = |entry: FolderEntry| entry.file_name@ != metadata_file(segment_id);
    assert forall|i: int| 0 <= i < left.len() implies (#[trigger] left[i]).file_name@
        != metadata_file(segment_id) by {
        entries.lemma_filter_pred(stays, i);
    }
}

/// The segments that stay are no more than were there.
proof fn kept_bytes_are_at_most_all(
    segments: Seq<ScreenMemorySegmentMetadata>,
    cutoff: UtcTime,
    max_bytes: u64,
)
    ensures
        0 <= total_bytes(kept_segments(segments, cutoff, max_bytes)) <= total_bytes(segments),
    decreases segments.len(),
{
    if segments.len() > 0 {
        let rest = segments.drop_last();
        kept_bytes_are_at_most_all(rest, cutoff, max_bytes);
        let kept = kept_segments(rest, cutoff, max_bytes);
        assert(kept.push(segments.last()).drop_last() =~= kept);
    }
}

/// What stays after pruning fits into the size limit. A limit at the counter's highest value is
/// left out: against it the counter cannot tell that it was passed.
pub proof fn pruning_meets_size_limit(
    segments: Seq<ScreenMemorySegmentMetadata>,
    cutoff: UtcTime,
    max_bytes: u64,
)
    requires
        max_bytes < u64::MAX,
    ensures
        total_bytes(kept_segments(segments, cutoff, max_bytes)) <= max_bytes,
    decreases segments.len(),
{
    if segments.len() > 0 {
        kept_bytes_are_at_most_all(segments, cutoff, max_bytes);
        pruning_meets_size_limit(segments.drop_last(), cutoff, max_bytes);
    }
}

/// Nothing that stays after pruning is older than the retention time allows.
pub proof fn pruning_meets_age_limit(
    segments: Seq<ScreenMemorySegmentMetadata>,
    cutoff: UtcTime,
    max_bytes: u64,
)
    ensures
        forall|i: int|
            0 <= i < kept_segments(segments, cutoff, max_bytes).len() ==> survives(
                stamp_time(
                    (#[trigger] kept_segments(segments, cutoff, max_bytes)[i]).ended_at@,
                ),
                cutoff,
            ),
    decreases segments.len(),
{
    if segments.len() > 0 {
        pruning_meets_age_limit(segments.drop_last(), cutoff, max_bytes);
    }
}

/// Pruning takes nothing away that it need not: with nothing too old and everything within the
/// size limit, all segments stay.
pub proof fn pruning_spares_what_fits(
    segments: Seq<ScreenMemorySegmentMetadata>,
    cutoff: UtcTime,
    max_bytes: u64,
)
    requires
        total_bytes(segments) <= max_bytes,
        forall|i: int|
            0 <= i < segments.len() ==> survives(
                stamp_time((#[trigger] segments[i]).ended_at@),
                cutoff,
            ),
    ensures
        kept_segments(segments, cutoff, max_bytes) == segments,
        pruned_segments(segments, cutoff, max_bytes) == Seq::<ScreenMemorySegmentMetadata>::empty(),
    decreases segments.len(),
{
    if segments.len() > 0 {
        let rest = segments.drop_last();
        assert forall|i: int| 0 <= i < rest.len() implies survives(
            stamp_time((#[trigger] rest[i]).ended_at@),
            cutoff,
        ) by {
            assert(rest[i] == segments[i]);
        }
        assert(survives(stamp_time(segments[segments.len() - 1].ended_at@), cutoff));
        total_bytes_is_not_negative(rest);
        pruning_spares_what_fits(rest, cutoff, max_bytes);
        assert(segments =~= rest.push(segments.last()));
    } else {
        assert(segments =~= Seq::<ScreenMemorySegmentMetadata>::empty());
    }
}

/// Pruning right after pruning finds nothing more to take.
pub proof fn pruning_is_idempotent(
    segments: Seq<ScreenMemorySegmentMetadata>,
    cutoff: UtcTime,
    max_bytes: u64,
)
    ensures
        kept_segments(kept_segments(segments, cutoff, max_bytes), cutoff, max_bytes)
            == kept_segments(segments, cutoff, max_bytes),
        pruned_segments(kept_segments(segments, cutoff, max_bytes), cutoff, max_bytes)
            == Seq::<ScreenMemorySegmentMetadata>::empty(),
    decreases segments.len(),
{
    if segments.len() == 0 {
        assert(segments =~= Seq::<ScreenMemorySegmentMetadata>::empty());
    } else {
        let rest = segments.drop_last();
        pruning_is_idempotent(rest, cutoff, max_bytes);
        if !oldest_is_pruned(segments, cutoff, max_bytes) {
            let kept = kept_segments(rest, cutoff, max_bytes);
            kept_bytes_are_at_most_all(rest, cutoff, max_bytes);
            assert(kept.push(segments.last()).drop_last() =~= kept);
            assert(!oldest_is_pruned(kept.push(segments.last()), cutoff, max_bytes));
        }
    }
}

/// Once a segment passes the size limit, every older one goes too.
pub proof fn pruning_takes_the_oldest(
    segments: Seq<ScreenMemorySegmentMetadata>,
    cutoff: UtcTime,
    max_bytes: u64,
    i: int,
    j: int,
)
    requires
        0 < i <= j <= segments.len(),
        counted(total_bytes(segments.take(i))) > max_bytes,
    ensures
        oldest_is_pruned(segments.take(j), cutoff, max_bytes),
    decreases j - i,
{
    if i < j {
        pruning_takes_the_oldest(segments, cutoff, max_bytes, i, j - 1);
        total_bytes_grows(segments, i, j);
    }
}

proof fn total_bytes_grows(segments: Seq<ScreenMemorySegmentMetadata>, i: int, j: int)
    requires
        0 <= i <= j <= segments.len(),
    ensures
        total_bytes(segments.take(i)) <= total_bytes(segments.take(j)),
    decreases j - i,
{
    if i < j {
        total_bytes_grows(segments, i, j - 1);
        assert(segments.take(j).drop_last() =~= segments.take(j - 1));
    }
}

/// A segment that ended less than the retention time ago is not too old.
pub proof fn fresh_segment_is_not_too_old(ended: UtcTime, now: UtcTime, config: ScreenMemoryConfig)
    requires
        now.is_clock_time(),
        now.secs - config.retention_hours * 3600 >= MIN_UTC_SECS,
        now.secs - ended.secs < config.retention_hours * 3600,
    ensures
        survives(Some(ended), now.minus_secs(config.retention_hours * 3600)),
{
}

/// Every segment either stays or goes.
pub proof fn pruning_splits_the_segments(
    segments: Seq<ScreenMemorySegmentMetadata>,
    cutoff: UtcTime,
    max_bytes: u64,
)
    ensures
        kept_segments(segments, cutoff, max_bytes).len() + pruned_segments(
            segments,
            cutoff,
            max_bytes,
        ).len() == segments.len(),
        total_bytes(kept_segments(segments, cutoff, max_bytes)) + total_bytes(
            pruned_segments(segments, cutoff, max_bytes),
        ) == total_bytes(segments),
    decreases segments.len(),
{
    if segments.len() > 0 {
        let rest = segments.drop_last();
        pruning_splits_the_segments(rest, cutoff, max_bytes);
        let kept = kept_segments(rest, cutoff, max_bytes);
        let pruned = pruned_segments(rest, cutoff, max_bytes);
        assert(kept.push(segments.last()).drop_last() =~= kept);
        assert(pruned.push(segments.last()).drop_last() =~= pruned);
    }
}

/// A metadata file that has outlived its recording is not among the segments found, and a segment
/// found keeps its metadata file.
pub proof fn entry_is_live_or_stale_not_both(entry: FolderEntry)
    ensures
        !(is_live(entry) && is_stale(entry)),
        !names_metadata(entry.file_name@) ==> !is_live(entry) && !is_stale(
            entry,
        ),
{
}

/// The file that a segment's metadata is written to is one that a scan reads.
pub proof fn metadata_file_is_scanned(segment_id: Seq<char>)
    ensures
        names_metadata(metadata_file(segment_id)),
{
    reveal_strlit(".json");
    reveal_strlit("json");
    sanitized_is_safe(segment_id);
    let id = sanitized(segment_id);
    assert(".json"@ =~= seq!['.'] + "json"@);
    assert(metadata_file(segment_id) =~= id + seq!['.'] + "json"@);
    assert(id != seq!['.']) by {
        if id == seq!['.'] {
            assert(safe_char(id[0]));
        }
    }
    extension_is_read_back(id, "json"@);
}

/// Neither a recording nor the file of the events is taken for metadata.
pub proof fn other_files_are_not_metadata(segment_id: Seq<char>)
    ensures
        !names_metadata(media_file(segment_id, "mp4"@)),
        !names_metadata(media_file(segment_id, "mov"@)),
        !names_metadata(SCREEN_MEMORY_EVENTS_JSONL@),
{
    reveal_strlit(".");
    reveal_strlit("mp4");
    reveal_strlit("mov");
    reveal_strlit("json");
    reveal_strlit("jsonl");
    reveal_strlit("events");
    reveal_strlit("events.jsonl");
    sanitized_is_safe(segment_id);
    let id = sanitized(segment_id);
    assert("."@ =~= seq!['.']);
    assert(id != seq!['.']) by {
        if id == seq!['.'] {
            assert(safe_char(id[0]));
        }
    }
    assert(without_leading_dots("mp4"@) == "mp4"@);
    assert(without_leading_dots("mov"@) == "mov"@);
    extension_is_read_back(id, "mp4"@);
    extension_is_read_back(id, "mov"@);
    assert(SCREEN_MEMORY_EVENTS_JSONL@ =~= "events"@ + seq!['.'] + "jsonl"@);
    extension_is_read_back("events"@, "jsonl"@);
    assert("mp4"@[0] == 'm' && "mov"@[0] == 'm' && "json"@[0] == 'j');
    assert("jsonl"@.len() == 5 && "json"@.len() == 4);
}

/// A segment whose metadata was written and whose recording is there is found again, and its
/// metadata is not cleared away.
pub proof fn stored_segment_is_scanned(
    entries: Seq<FolderEntry>,
    i: int,
    segment: ScreenMemorySegmentMetadata,
)
    requires
        0 <= i < entries.len(),
        entries[i].file_name@ == metadata_file(segment.id@),
        entries[i].metadata == Some(segment),
        entries[i].media_exists,
    ensures
        live_segments(entries).contains(segment),
        !is_stale(entries[i]),
    decreases entries.len(),
{
    metadata_file_is_scanned(segment.id@);
    let rest = entries.drop_last();
    let before = live_segments(rest);
    if i == entries.len() - 1 {
        assert(before.push(segment)[before.len() as int] == segment);
    } else {
        stored_segment_is_scanned(rest, i, segment);
        let k = choose|k: int| 0 <= k < before.len() && before[k] == segment;
        assert(live_segments(entries)[k] == segment);
    }
}

/// Once its metadata file is removed, a segment is not found any more, and nothing else is lost.
pub proof fn deleted_segment_is_not_scanned(entries: Seq<FolderEntry>, i: int)
    requires
        0 <= i < entries.len(),
    ensures
        live_segments(entries.remove(i)) == live_segments(entries.take(i)) + live_segments(
            entries.skip(i + 1),
        ),
        live_segments(entries) == live_segments(entries.take(i)) + live_segments(
            seq![entries[i]],
        ) + live_segments(entries.skip(i + 1)),
{
    assert(entries.remove(i) =~= entries.take(i) + entries.skip(i + 1));
    assert(entries =~= entries.take(i) + seq![entries[i]] + entries.skip(i + 1));
    live_segments_of_parts(entries.take(i), entries.skip(i + 1));
    live_segments_of_parts(entries.take(i), seq![entries[i]]);
    live_segments_of_parts(entries.take(i) + seq![entries[i]], entries.skip(i + 1));
}

proof fn live_segments_of_parts(a: Seq<FolderEntry>, b: Seq<FolderEntry>)
    ensures
        live_segments(a + b) == live_segments(a) + live_segments(b),
    decreases b.len(),
{
    if b.len() == 0 {
        assert(a + b =~= a);
        assert(live_segments(a) + live_segments(b) =~= live_segments(a));
    } else {
        assert((a + b).drop_last() =~= a + b.drop_last());
        live_segments_of_parts(a, b.drop_last());
        assert((a + b).last() == b.last());
        let segment = b.last().metadata->0;
        assert((live_segments(a) + live_segments(b.drop_last())).push(segment) =~= live_segments(a)
            + live_segments(b.drop_last()).push(segment));
    }
}

/// A file is the metadata of a live segment when it has the extension `json`, could be read and its
/// recording exists; it is stale when the recording does not exist.
pub proof fn live_and_stale_go_by_extension_metadata_and_recording(entry: FolderEntry)
    ensures
        names_metadata(entry.file_name@) <==> extension_of(entry.file_name@) == Some("json"@),
        is_live(entry) <==> extension_of(entry.file_name@) == Some("json"@) && entry.metadata is Some
            && entry.media_exists,
        is_stale(entry) <==> extension_of(entry.file_name@) == Some("json"@)
            && entry.metadata is Some && !entry.media_exists,
{
}

/// A scan goes file by file: what it finds in two folders put together is what it finds in the one and
/// then in the other, and one file gives its own segment, its own path as stale, or nothing.
pub proof fn scan_goes_file_by_file(a: Seq<FolderEntry>, b: Seq<FolderEntry>, entry: FolderEntry)
    ensures
        live_segments(Seq::empty()) == Seq::<ScreenMemorySegmentMetadata>::empty(),
        stale_files(Seq::empty()) == Seq::<String>::empty(),
        live_segments(a + b) == live_segments(a) + live_segments(b),
        is_live(entry) ==> live_segments(a.push(entry)) == live_segments(a).push(
            entry.metadata->0,
        ),
        !is_live(entry) ==> live_segments(a.push(entry)) == live_segments(a),
        is_stale(entry) ==> stale_files(a.push(entry)) == stale_files(a).push(entry.path),
        !is_stale(entry) ==> stale_files(a.push(entry)) == stale_files(a),
{
    live_segments_of_parts(a, b);
    assert(a.push(entry).drop_last() =~= a);
}

/// Kept and pruned segments are told apart segment by segment, from the newest on: the next older one
/// goes when it ended before the cutoff, or when its bytes and those of all newer ones pass the limit;
/// otherwise it stays.
pub proof fn pruning_goes_segment_by_segment(
    newer: Seq<ScreenMemorySegmentMetadata>,
    segment: ScreenMemorySegmentMetadata,
    cutoff: UtcTime,
    max_bytes: u64,
)
    ensures
        ({
            let goes = (stamp_time(segment.ended_at@) matches Some(at) && (at.secs < cutoff.secs || (
            at.secs == cutoff.secs && at.nanos < cutoff.nanos))) || (total_bytes(newer)
                + segment.bytes > max_bytes && max_bytes < u64::MAX);
            &&& goes ==> pruned_segments(newer.push(segment), cutoff, max_bytes)
                == pruned_segments(newer, cutoff, max_bytes).push(segment)
            &&& goes ==> kept_segments(newer.push(segment), cutoff, max_bytes) == kept_segments(
                newer,
                cutoff,
                max_bytes,
            )
            &&& !goes ==> kept_segments(newer.push(segment), cutoff, max_bytes) == kept_segments(
                newer,
                cutoff,
                max_bytes,
            ).push(segment)
            &&& !goes ==> pruned_segments(newer.push(segment), cutoff, max_bytes)
                == pruned_segments(newer, cutoff, max_bytes)
        }),
        pruned_segments(Seq::empty(), cutoff, max_bytes).len() == 0,
        kept_segments(Seq::empty(), cutoff, max_bytes).len() == 0,
{
    assert(newer.push(segment).drop_last() =~= newer);
}

/// What the pruning rule sees of segments: when each ended and its bytes, which add up.
pub proof fn ages_hold_end_and_bytes(
    segments: Seq<ScreenMemorySegmentMetadata>,
    i: int,
    ages: Seq<SegmentAge>,
    age: SegmentAge,
)
    requires
        0 <= i < segments.len(),
    ensures
        ages_of(segments).len() == segments.len(),
        ages_of(segments)[i].ended == stamp_time(segments[i].ended_at@),
        ages_of(segments)[i].bytes == segments[i].bytes,
        total_age_bytes(ages.push(age)) == total_age_bytes(ages) + age.bytes,
        total_age_bytes(Seq::empty()) == 0,
        total_age_bytes(ages_of(segments)) == total_bytes(segments),
{
    ages_have_the_same_bytes(segments);
    assert(ages.push(age).drop_last() =~= ages);
}

/// A 64-bit counter shows what it counted, up to its highest value.
pub proof fn counter_stops_at_its_highest_value(bytes: int)
    ensures
        bytes <= u64::MAX ==> counted(bytes) == bytes,
        bytes > u64::MAX ==> counted(bytes) == u64::MAX,
{
}

/// A segment that ended before the retention time began is pruned: whatever else was found, its id is
/// among those given.
pub proof fn expired_segments_are_pruned(
    found: Seq<ScreenMemorySegmentMetadata>,
    config: ScreenMemoryConfig,
    now: UtcTime,
    ids: Seq<String>,
    i: int,
    at: UtcTime,
)
    requires
        now.is_clock_time(),
        now.secs - config.retention_hours * 3600 >= MIN_UTC_SECS,
        ids == ids_of(
            pruned_segments(
                newest_first_of(found),
                now.minus_secs(config.retention_hours * 3600),
                config.max_bytes,
            ),
        ),
        0 <= i < found.len(),
        stamp_time(found[i].ended_at@) == Some(at),
        at.secs < now.secs - config.retention_hours * 3600,
    ensures
        ids.contains(found[i].id),
{
    let segments = newest_first_of(found);
    pruned_ids_are_those_that_have_to_go(segments, config, now);
    sorting_orders_by_date(found);
    assert(found.contains(found[i]));
    assert(segments.contains(found[i]));
    let k = choose|k: int| 0 <= k < segments.len() && segments[k] == found[i];
    assert(ids.contains(segments[k].id));
}

/// The newest segment is never pruned for its age while it is within the retention time, nor for its
/// size while it fits alone.
pub proof fn fresh_newest_segment_stays(
    segments: Seq<ScreenMemorySegmentMetadata>,
    cutoff: UtcTime,
    max_bytes: u64,
)
    requires
        segments.len() > 0,
        survives(stamp_time(segments[0].ended_at@), cutoff),
        segments[0].bytes <= max_bytes,
    ensures
        kept_segments(segments, cutoff, max_bytes).len() > 0,
        kept_segments(segments, cutoff, max_bytes)[0] == segments[0],
    decreases segments.len(),
{
    if segments.len() == 1 {
        assert(total_bytes(segments.drop_last()) == 0);
        assert(kept_segments(segments.drop_last(), cutoff, max_bytes).len() == 0);
        assert(!oldest_is_pruned(segments, cutoff, max_bytes));
    } else {
        fresh_newest_segment_stays(segments.drop_last(), cutoff, max_bytes);
    }
}

/// Pruning tries its segments in order, one at a time, and is done after the last one; the ids are
/// those of the segments, in order.
pub proof fn pruning_tries_its_segments_in_order(
    pruning: Pruning,
    segments: Seq<ScreenMemorySegmentMetadata>,
    i: int,
)
    requires
        0 <= i < segments.len(),
    ensures
        pruning.next < pruning.ids@.len() ==> pruning.action() == PruneAction::Delete(
            pruning.ids@[pruning.next as int],
        ),
        pruning.next >= pruning.ids@.len() ==> pruning.action() is Done,
        ids_of(segments).len() == segments.len(),
        ids_of(segments)[i] == segments[i].id,
{
}

/// The rule of pruning: the oldest of the segments looked at goes when it ended before the cutoff, or
/// when the bytes of all of them pass the limit.
pub proof fn oldest_goes_by_age_or_size(
    newer: Seq<SegmentAge>,
    age: SegmentAge,
    cutoff: UtcTime,
    max_bytes: u64,
)
    ensures
        oldest_goes(newer.push(age), cutoff, max_bytes) <==> ((age.ended matches Some(at) && (at.secs
            < cutoff.secs || (at.secs == cutoff.secs && at.nanos < cutoff.nanos))) || (
        total_age_bytes(newer) + age.bytes > max_bytes && max_bytes < u64::MAX)),
{
    assert(newer.push(age).drop_last() =~= newer);
}

} // verus!
