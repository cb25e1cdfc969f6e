//! Exporting the latest segments as numbered files.

use crate::catalog::recent_segments;
use crate::clock::{
    current_time, folder_stamp, formatted_text, minutes_before, stamp_is_kept, stamp_time,
    survives, UtcTime, FOLDER_PATTERN,
};
use crate::config::clamp_u64;
use crate::order::{
    keep_where, newest_first_of, picking_and_sorting_commute, sorting_orders_by_date, Dated,
};
use crate::query::{range_minutes, recent_enough, MAX_RANGE_MINUTES};
use crate::segment::{
    extension_of, file_extension, file_name_of, path_file_name, reads_alike,
    ScreenMemorySegmentMetadata,
};
use crate::text::{
    contains_text, decimal, decimal_is_digits, decimal_is_injective, is_digit, option_text, push_two_digits,
    text_le,
    two_digits,
};
use vstd::prelude::*;
use vstd::string::*;

verus! {

/// The minutes that an export covers where none are given.
pub const DEFAULT_EXPORT_MINUTES: u64 = 5;

/// An exported file.
#[derive(Clone, Debug)]
pub struct ScreenMemoryExportFile {
    pub path: String,
    pub file_name: String,
    pub bytes: u64,
    pub mime_type: String,
}

/// What an export wrote.
#[derive(Clone, Debug)]
pub struct ScreenMemoryExportResult {
    pub folder_path: String,
    pub files: Vec<ScreenMemoryExportFile>,
}

/// A recording that is to be copied into the export folder under `file_name`.
pub struct ExportItem {
    pub source: String,
    pub file_name: String,
    pub mime_type: String,
}

/// What ended before this time is not exported at `now`.
pub fn export_cutoff(minutes: u64, now: UtcTime) -> (r: UtcTime)
    requires
        now.is_clock_time(),
    ensures
        r == now.minus_secs(range_minutes(minutes as int) * 60),
        r.nanos == now.nanos,
        minutes < 1 ==> r.secs == now.secs - 60,
        1 <= minutes <= 43_200 ==> r.secs == now.secs - minutes * 60,
        minutes > 43_200 ==> r.secs == now.secs - 43_200 * 60,
{
    minutes_before(now, clamp_u64(minutes, 1, MAX_RANGE_MINUTES))
}

/// What ended before this time is not part of the export that the user asks for now.
pub fn screen_memory_export_recent(minutes: Option<u64>) -> (r: UtcTime)
    ensures
        exists|now: UtcTime|
            #[trigger] now.shown_by_clock() && now.is_clock_time() && r == now.minus_secs(
                range_minutes(
                    (match minutes {
                        Some(minutes) => minutes,
                        None => DEFAULT_EXPORT_MINUTES,
                    }) as int,
                ) * 60,
            ) && r.nanos == now.nanos && (minutes is None ==> r.secs == now.secs - 300) && (
            minutes matches Some(asked) ==> (asked < 1 ==> r.secs == now.secs - 60) && (1 <= asked
                <= 43_200 ==> r.secs == now.secs - asked * 60) && (asked > 43_200 ==> r.secs
                == now.secs - 43_200 * 60)),
{
    let minutes: u64 = match minutes {
        Some(minutes) => minutes,
        None => DEFAULT_EXPORT_MINUTES,
    };
    let now = current_time();
    assert(now.shown_by_clock());
    export_cutoff(minutes, now)
}

/// The folder of all exports, within the user's videos folder.
pub const CLIPS_FOLDER: &'static str = "Clips";

/// The folder of Screen Memory's exports, within that of all exports.
pub const EXPORTS_FOLDER: &'static str = "Screen Memory";

/// `folders` lead from the user's videos folder to that of an export made at `at`.
pub open spec fn are_export_folders(folders: Seq<String>, at: UtcTime) -> bool {
    &&& folders.len() == 3
    &&& folders[0]@ == CLIPS_FOLDER@
    &&& folders[1]@ == EXPORTS_FOLDER@
    &&& folders[2]@ == formatted_text(at.secs, at.nanos, FOLDER_PATTERN@)
    &&& at.has_four_digit_year() ==> folders[2]@.len() == 17 && forall|i: int|
        0 <= i < 17 ==> #[trigger] folders[2]@[i] == '-' || is_digit(folders[2]@[i])
}

/// The folders, each within the one before, that lead from the user's videos folder to that of an
/// export made at `at`.
pub fn export_folders_at(at: UtcTime) -> (r: Vec<String>)
    requires
        at.is_clock_time(),
    ensures
        are_export_folders(r@, at),
        r@.len() == 3,
        r@[0]@ == "Clips"@,
        r@[1]@ == "Screen Memory"@,
        r@[2]@ == formatted_text(at.secs, at.nanos, "%Y-%m-%d-%H%M%S"@),
{
    let mut folders: Vec<String> = Vec::new();
    folders.push(CLIPS_FOLDER.to_string());
    folders.push(EXPORTS_FOLDER.to_string());
    folders.push(folder_stamp(at));
    folders
}

/// The folders, each within the one before, that lead from the user's videos folder to that of an
/// export that is made now.
pub fn export_folders() -> (r: Vec<String>)
    ensures
        exists|now: UtcTime|
            #[trigger] now.shown_by_clock() && now.is_clock_time() && are_export_folders(r@, now)
                && r@[2]@ == formatted_text(now.secs, now.nanos, "%Y-%m-%d-%H%M%S"@),
        r@.len() == 3,
        r@[0]@ == "Clips"@,
        r@[1]@ == "Screen Memory"@,
{
    let now = current_time();
    assert(now.shown_by_clock());
    export_folders_at(now)
}

/// The name of the exported file with this number.
pub open spec fn export_name(number: nat, extension: Option<Seq<char>>) -> Seq<char> {
    "segment-"@ + two_digits(number) + "."@ + (match extension {
        Some(extension) => extension,
        None => "mp4"@,
    })
}

/// The name of the exported file with this number.
pub fn export_file_name(number: u64, extension: Option<String>) -> (r: String)
    ensures
        r@ == export_name(number as nat, option_text(extension)),
        extension matches Some(text) ==> r@ == "segment-"@ + two_digits(number as nat) + "."@
            + text@,
        extension is None ==> r@ == "segment-"@ + two_digits(number as nat) + "."@ + "mp4"@,
{
    let mut name = "segment-".to_string();
    push_two_digits(&mut name, number);
    name.append(".");
    match extension {
        Some(extension) => {
            name.append(extension.as_str());
        },
        None => {
            name.append("mp4");
        },
    }
    name
}

/// The extension of the file whose name, where it is known, is `file_name`.
pub open spec fn known_extension(file_name: Option<Seq<char>>) -> Option<Seq<char>> {
    match file_name {
        Some(name) => extension_of(name),
        None => None,
    }
}

/// How the segment with this number is exported when its recording's file name is `file_name`.
pub fn export_item(
    segment: ScreenMemorySegmentMetadata,
    number: u64,
    file_name: Option<String>,
) -> (r: ExportItem)
    ensures
        r.source == segment.path,
        r.mime_type == segment.mime_type,
        r.file_name@ == export_name(number as nat, known_extension(option_text(file_name))),
        r.file_name@ == "segment-"@ + two_digits(number as nat) + "."@ + (match file_name {
            Some(name) => match extension_of(name@) {
                Some(extension) => extension,
                None => "mp4"@,
            },
            None => "mp4"@,
        }),
{
    let extension = match file_name {
        Some(name) => file_extension(name.as_str()),
        None => None,
    };
    ExportItem {
        source: segment.path,
        file_name: export_file_name(number, extension),
        mime_type: segment.mime_type,
    }
}

/// `item` exports `segment` under `number`, with the extension of the piece of its path that was
/// found to be the recording's file name.
pub open spec fn exports(
    item: ExportItem,
    segment: ScreenMemorySegmentMetadata,
    number: nat,
) -> bool {
    &&& item.source == segment.path
    &&& item.mime_type == segment.mime_type
    &&& exists|file_name: Option<Seq<char>>|
        {
            &&& file_name matches Some(name) ==> name.len() > 0 && contains_text(
                segment.path@,
                name,
            )
            &&& reads_alike(segment.path@) ==> file_name == file_name_of(segment.path@)
            &&& item.file_name@ == export_name(number, #[trigger] known_extension(file_name))
        }
}

/// The item exports one of `found` that ended at or after `cutoff`, or whose end cannot be read.
pub open spec fn is_of_a_segment_in_range(
    item: ExportItem,
    found: Seq<ScreenMemorySegmentMetadata>,
    cutoff: UtcTime,
) -> bool {
    exists|i: int|
        0 <= i < found.len() && survives(stamp_time((#[trigger] found[i]).ended_at@), cutoff)
            && item.source == found[i].path && item.mime_type == found[i].mime_type
}

proof fn picked_segments_are_those_in_range(
    found: Seq<ScreenMemorySegmentMetadata>,
    cutoff: UtcTime,
)
    ensures
        ({
            let segments = newest_first_of(found).filter(recent_enough(cutoff));
            &&& forall|i: int|
                0 <= i < found.len() && survives(
                    stamp_time((#[trigger] found[i]).ended_at@),
                    cutoff,
                ) ==> segments.contains(found[i])
            &&& forall|x: ScreenMemorySegmentMetadata| #[trigger]
                segments.contains(x) ==> found.contains(x) && survives(
                    stamp_time(x.ended_at@),
                    cutoff,
                )
            &&& segments.len() == found.filter(
                |segment: ScreenMemorySegmentMetadata|
                    survives(stamp_time(segment.ended_at@), cutoff),
            ).len()
            &&& forall|i: int, j: int|
                0 <= i <= j < segments.len() ==> text_le(
                    (#[trigger] segments[j]).ended_at@,
                    (#[trigger] segments[i]).ended_at@,
                )
        }),
{
    let pick = recent_enough(cutoff);
    let picked = found.filter(pick);
    let segments = newest_first_of(found).filter(pick);
    picking_and_sorting_commute(found, pick);
    sorting_orders_by_date(picked);
    assert(pick =~= (|segment: ScreenMemorySegmentMetadata|
        survives(stamp_time(segment.ended_at@), cutoff)));
    assert forall|i: int|
        0 <= i < found.len() && survives(
            stamp_time((#[trigger] found[i]).ended_at@),
            cutoff,
        ) implies segments.contains(found[i]) by {
        assert(pick(found[i]));
        found.lemma_filter_contains(pick, i);
        assert(picked.contains(found[i]));
    }
    assert forall|x: ScreenMemorySegmentMetadata| #[trigger]
        segments.contains(x) implies found.contains(x) && survives(
        stamp_time(x.ended_at@),
        cutoff,
    ) by {
        assert(picked.contains(x));
        let k = choose|k: int| 0 <= k < picked.len() && picked[k] == x;
        found.lemma_filter_pred(pick, k);
        found.lemma_filter_contains_rev(pick, x);
    }
    assert forall|i: int, j: int| 0 <= i <= j < segments.len() implies text_le(
        (#[trigger] segments[j]).ended_at@,
        (#[trigger] segments[i]).ended_at@,
    ) by {
        assert(text_le(segments[j].date(), segments[i].date()));
    }
}

/// The recordings to copy: those of the stored segments that ended at or after `cutoff`, numbered
/// from one, the oldest first.
pub fn export_recent(found: Vec<ScreenMemorySegmentMetadata>, cutoff: UtcTime) -> (r: Result<
    Vec<ExportItem>,
    String,
>)
    ensures
        ({
            let segments = newest_first_of(found@).filter(recent_enough(cutoff));
            match r {
                Ok(items) => {
                    &&& segments.len() > 0
                    &&& items@.len() == segments.len()
                    &&& forall|i: int|
                        0 <= i < items@.len() ==> exports(
                            #[trigger] items@[i],
                            segments[segments.len() - 1 - i],
                            (i + 1) as nat,
                        )
                },
                Err(message) => {
                    &&& segments.len() == 0
                    &&& message@ == "No Screen Memory segments are available for that range."@
                },
            }
        }),
        forall|i: int|
            0 <= i < found@.len() && survives(stamp_time((#[trigger] found@[i]).ended_at@), cutoff)
                ==> (r matches Ok(items) && exists|k: int|
                0 <= k < items@.len() && (#[trigger] items@[k]).source == found@[i].path
                    && items@[k].mime_type == found@[i].mime_type),
        r matches Ok(items) ==> forall|k: int|
            0 <= k < items@.len() ==> is_of_a_segment_in_range(
                #[trigger] items@[k],
                found@,
                cutoff,
            ),
        r matches Ok(items) ==> items@.len() == found@.filter(
            |segment: ScreenMemorySegmentMetadata|
                survives(stamp_time(segment.ended_at@), cutoff),
        ).len(),
{
    let keep = |segment: &ScreenMemorySegmentMetadata| -> (kept: bool)
        ensures
            kept == survives(stamp_time(segment.ended_at@), cutoff),
        { stamp_is_kept(segment.ended_at.as_str(), cutoff) };
    let mut rest = keep_where(recent_segments(found, None), keep, Ghost(recent_enough(cutoff)));
    let ghost segments = rest@;
    proof {
        picked_segments_are_those_in_range(found@, cutoff);
    }
    if rest.len() == 0 {
        return Err("No Screen Memory segments are available for that range.".to_string());
    }
    let mut items: Vec<ExportItem> = Vec::new();
    while rest.len() > 0
        invariant
            rest@.len() + items@.len() == segments.len(),
            rest@ == segments.take(rest@.len() as int),
            forall|i: int|
                0 <= i < items@.len() ==> exports(
                    #[trigger] items@[i],
                    segments[segments.len() - 1 - i],
                    (i + 1) as nat,
                ),
            segments.len() <= usize::MAX,
        decreases rest.len(),
    {
        match rest.pop() {
            Some(segment) => {
                let number: u64 = items.len() as u64 + 1;
                let file_name = path_file_name(segment.path.as_str());
                let item = export_item(segment, number, file_name);
                assert(item.file_name@ == export_name(
                    number as nat,
                    known_extension(option_text(file_name)),
                ));
                items.push(item);
            },
            None => {},
        }
    }
    proof {
        assert forall|i: int|
            0 <= i < found@.len() && survives(
                stamp_time((#[trigger] found@[i]).ended_at@),
                cutoff,
            ) implies exists|k: int|
            0 <= k < items@.len() && (#[trigger] items@[k]).source == found@[i].path
                && items@[k].mime_type == found@[i].mime_type by {
            assert(segments.contains(found@[i]));
            let n = choose|n: int| 0 <= n < segments.len() && segments[n] == found@[i];
            let k = segments.len() - 1 - n;
            assert(exports(items@[k], segments[segments.len() - 1 - k], (k + 1) as nat));
        }
        assert forall|k: int| 0 <= k < items@.len() implies is_of_a_segment_in_range(
            #[trigger] items@[k],
            found@,
            cutoff,
        ) by {
            let n = segments.len() - 1 - k;
            assert(exports(items@[k], segments[n], (k + 1) as nat));
            assert(segments.contains(segments[n]));
            let i = choose|i: int| 0 <= i < found@.len() && found@[i] == segments[n];
            assert(survives(stamp_time(found@[i].ended_at@), cutoff));
        }
    }
    Ok(items)
}

/// An export under way: what is copied into the folder at `folder_path`, and the files that are
/// there already.
pub struct Exporting {
    pub folder_path: String,
    pub items: Vec<ExportItem>,
    pub files: Vec<ScreenMemoryExportFile>,
}

/// A recording whose turn it is to be copied, to a file of this name in the export folder.
pub struct ExportCopy {
    pub source: String,
    pub file_name: String,
}

/// How the attempt to copy a recording ended.
pub enum CopyOutcome {
    /// The copy takes so many bytes.
    Copied(u64),
    /// There is no copy, for this reason.
    CopyFailed(String),
    /// The size of the copy could not be told, for this reason.
    SizeFailed(String),
}

impl Exporting {
    /// The files are those of the first items, in order.
    pub open spec fn is_valid(self) -> bool {
        &&& self.files@.len() <= self.items@.len()
        &&& forall|i: int|
            0 <= i < self.files@.len() ==> (#[trigger] self.files@[i]).file_name
                == self.items@[i].file_name && self.files@[i].mime_type == self.items@[i].mime_type
    }

    /// A recording is still to be copied.
    pub open spec fn has_item_left(self) -> bool {
        self.files@.len() < self.items@.len()
    }

    /// The export of `items` into the folder at `folder_path`.
    pub fn start(items: Vec<ExportItem>, folder_path: String) -> (r: Exporting)
        ensures
            r.is_valid(),
            r.folder_path == folder_path,
            r.items == items,
            r.files@.len() == 0,
    {
        Exporting { folder_path, items, files: Vec::new() }
    }

    /// The recording whose turn it is to be copied.
    pub fn next_copy(&self) -> (r: Option<ExportCopy>)
        ensures
            match r {
                Some(copy) => {
                    &&& self.has_item_left()
                    &&& copy.source == self.items@[self.files@.len() as int].source
                    &&& copy.file_name == self.items@[self.files@.len() as int].file_name
                },
                None => !self.has_item_left(),
            },
            r is Some <==> self.files@.len() < self.items@.len(),
    {
        let turn: usize = self.files.len();
        if turn < self.items.len() {
            Some(
                ExportCopy {
                    source: self.items[turn].source.clone(),
                    file_name: self.items[turn].file_name.clone(),
                },
            )
        } else {
            None
        }
    }

    /// Notes what came of the copy to `destination` whose turn it was. A failure ends the export
    /// with its message.
    pub fn after_copy(&mut self, destination: String, outcome: CopyOutcome) -> (r: Result<
        (),
        String,
    >)
        requires
            old(self).is_valid(),
            old(self).has_item_left(),
        ensures
            final(self).is_valid(),
            final(self).folder_path == old(self).folder_path,
            final(self).items == old(self).items,
            match outcome {
                CopyOutcome::Copied(bytes) => {
                    &&& r is Ok
                    &&& final(self).files@.len() == old(self).files@.len() + 1
                    &&& final(self).files@.drop_last() == old(self).files@
                    &&& is_export_of(
                        final(self).files@.last(),
                        old(self).items@[old(self).files@.len() as int],
                        destination,
                        bytes,
                    )
                    &&& final(self).files@.last().path == destination
                    &&& final(self).files@.last().file_name
                        == old(self).items@[old(self).files@.len() as int].file_name
                    &&& final(self).files@.last().bytes == bytes
                    &&& final(self).files@.last().mime_type
                        == old(self).items@[old(self).files@.len() as int].mime_type
                },
                CopyOutcome::CopyFailed(err) => *final(self) == *old(self) && (r matches Err(
                    message,
                ) && message@ == "screen memory export copy failed: "@ + err@),
                CopyOutcome::SizeFailed(err) => *final(self) == *old(self) && (r matches Err(
                    message,
                ) && message@ == "screen memory export metadata failed: "@ + err@),
            },
    {
        match outcome {
            CopyOutcome::Copied(bytes) => {
                let turn: usize = self.files.len();
                let file = exported_file(&self.items[turn], destination, bytes);
                self.files.push(file);
                assert(self.files@.drop_last() =~= old(self).files@);
                Ok(())
            },
            CopyOutcome::CopyFailed(err) => Err(
                "screen memory export copy failed: ".to_string().concat(err.as_str()),
            ),
            CopyOutcome::SizeFailed(err) => Err(
                "screen memory export metadata failed: ".to_string().concat(err.as_str()),
            ),
        }
    }

    /// What the export wrote, once every recording was copied.
    pub fn finish(self) -> (r: ScreenMemoryExportResult)
        requires
            self.is_valid(),
            !self.has_item_left(),
        ensures
            r.folder_path == self.folder_path,
            r.files == self.files,
            r.files@.len() == self.items@.len(),
            forall|i: int|
                0 <= i < r.files@.len() ==> (#[trigger] r.files@[i]).file_name
                    == self.items@[i].file_name && r.files@[i].mime_type
                    == self.items@[i].mime_type,
    {
        ScreenMemoryExportResult { folder_path: self.folder_path, files: self.files }
    }
}

/// `file` is what `item` was exported to: it lies at `destination` and takes `bytes` there.
pub open spec fn is_export_of(
    file: ScreenMemoryExportFile,
    item: ExportItem,
    destination: String,
    bytes: u64,
) -> bool {
    &&& file.path == destination
    &&& file.file_name == item.file_name
    &&& file.bytes == bytes
    &&& file.mime_type == item.mime_type
}

/// The exported file once `item` was copied to `destination` and takes `bytes` there.
pub fn exported_file(item: &ExportItem, destination: String, bytes: u64) -> (r:
    ScreenMemoryExportFile)
    ensures
        is_export_of(r, *item, destination, bytes),
        r.path == destination,
        r.file_name == item.file_name,
        r.bytes == bytes,
        r.mime_type == item.mime_type,
{
    ScreenMemoryExportFile {
        path: destination,
        file_name: item.file_name.clone(),
        bytes,
        mime_type: item.mime_type.clone(),
    }
}

/// Where every system reads a recording's path alike, its exported file has the extension of the
/// file name in that path.
pub proof fn export_keeps_the_extension(
    item: ExportItem,
    segment: ScreenMemorySegmentMetadata,
    number: nat,
)
    requires
        exports(item, segment, number),
        reads_alike(segment.path@),
    ensures
        item.file_name@ == export_name(number, known_extension(file_name_of(segment.path@))),
{
}

proof fn two_digits_are_digits(number: nat)
    ensures
        two_digits(number).len() > 0,
        forall|i: int| 0 <= i < two_digits(number).len() ==> is_digit(
            #[trigger] two_digits(number)[i],
        ),
{
    decimal_is_digits(number);
}

proof fn two_digits_are_injective(a: nat, b: nat)
    requires
        two_digits(a) == two_digits(b),
    ensures
        a == b,
{
    decimal_is_digits(a);
    decimal_is_digits(b);
    let (x, y) = (two_digits(a), two_digits(b));
    if a < 10 && b < 10 {
        assert(decimal(a) =~= x.skip(1));
        assert(decimal(b) =~= y.skip(1));
        decimal_is_injective(a, b);
    } else if a >= 10 && b >= 10 {
        decimal_is_injective(a, b);
    } else if a < 10 {
        leading_digit_is_not_zero(b);
    } else {
        leading_digit_is_not_zero(a);
    }
}

proof fn leading_digit_is_not_zero(n: nat)
    requires
        n > 0,
    ensures
        decimal(n).len() > 0,
        decimal(n)[0] != '0',
    decreases n,
{
    if n >= 10 {
        leading_digit_is_not_zero(n / 10);
    }
}

/// No two files of an export overwrite each other: different numbers give different names.
pub proof fn export_names_differ(
    a: nat,
    extension_a: Option<Seq<char>>,
    b: nat,
    extension_b: Option<Seq<char>>,
)
    requires
        export_name(a, extension_a) == export_name(b, extension_b),
    ensures
        a == b,
{
    reveal_strlit("segment-");
    reveal_strlit(".");
    two_digits_are_digits(a);
    two_digits_are_digits(b);
    let (x, y) = (export_name(a, extension_a), export_name(b, extension_b));
    let (m, n) = (two_digits(a), two_digits(b));
    assert(x[8int + m.len()] == '.');
    assert(y[8int + n.len()] == '.');
    if m.len() < n.len() {
        assert(y[8int + m.len()] == n[m.len() as int]);
        assert(is_digit(n[m.len() as int]));
    }
    if n.len() < m.len() {
        assert(x[8int + n.len()] == m[n.len() as int]);
        assert(is_digit(m[n.len() as int]));
    }
    assert forall|i: int| 0 <= i < m.len() implies m[i] == n[i] by {
        assert(x[8 + i] == m[i]);
        assert(y[8 + i] == n[i]);
    }
    assert(m =~= n);
    two_digits_are_injective(a, b);
}

/// An export takes every found segment that ended at or after the cutoff, or whose end cannot be read,
/// whatever its other fields are; and it takes no other.
pub proof fn export_takes_exactly_the_segments_in_range(
    found: Seq<ScreenMemorySegmentMetadata>,
    cutoff: UtcTime,
    items: Seq<ExportItem>,
)
    requires
        items.len() == newest_first_of(found).filter(recent_enough(cutoff)).len(),
        forall|i: int|
            0 <= i < items.len() ==> exports(
                #[trigger] items[i],
                newest_first_of(found).filter(recent_enough(cutoff))[items.len() - 1 - i],
                (i + 1) as nat,
            ),
    ensures
        forall|i: int|
            0 <= i < found.len() && survives(stamp_time((#[trigger] found[i]).ended_at@), cutoff)
                ==> exists|k: int|
                0 <= k < items.len() && (#[trigger] items[k]).source == found[i].path
                    && items[k].mime_type == found[i].mime_type,
        forall|k: int|
            0 <= k < items.len() ==> is_of_a_segment_in_range(
                #[trigger] items[k],
                found,
                cutoff,
            ),
        items.len() == found.filter(
            |segment: ScreenMemorySegmentMetadata|
                survives(stamp_time(segment.ended_at@), cutoff),
        ).len(),
{
    let segments = newest_first_of(found).filter(recent_enough(cutoff));
    picked_segments_are_those_in_range(found, cutoff);
    assert forall|i: int|
        0 <= i < found.len() && survives(
            stamp_time((#[trigger] found[i]).ended_at@),
            cutoff,
        ) implies exists|k: int|
        0 <= k < items.len() && (#[trigger] items[k]).source == found[i].path
            && items[k].mime_type == found[i].mime_type by {
        assert(segments.contains(found[i]));
        let n = choose|n: int| 0 <= n < segments.len() && segments[n] == found[i];
        let k = segments.len() - 1 - n;
        assert(exports(items[k], segments[items.len() - 1 - k], (k + 1) as nat));
    }
    assert forall|k: int| 0 <= k < items.len() implies is_of_a_segment_in_range(
        #[trigger] items[k],
        found,
        cutoff,
    ) by {
        let n = segments.len() - 1 - k;
        assert(exports(items[k], segments[n], (k + 1) as nat));
        assert(segments.contains(segments[n]));
        let i = choose|i: int| 0 <= i < found.len() && found[i] == segments[n];
        assert(survives(stamp_time(found[i].ended_at@), cutoff));
    }
}

/// Exported files are numbered from the oldest on: a file with a lower number did not end later.
pub proof fn export_numbers_go_from_old_to_new(
    found: Seq<ScreenMemorySegmentMetadata>,
    cutoff: UtcTime,
    i: int,
    j: int,
)
    requires
        0 <= i <= j < newest_first_of(found).filter(recent_enough(cutoff)).len(),
    ensures
        ({
            let segments = newest_first_of(found).filter(recent_enough(cutoff));
            text_le(
                segments[segments.len() - 1 - i].ended_at@,
                segments[segments.len() - 1 - j].ended_at@,
            )
        }),
{
    picked_segments_are_those_in_range(found, cutoff);
}

/// What an export item holds: where the recording lies, its kind, and a name made of the number, with
/// two digits at least, and of the recording's extension, or `mp4` where it has none.
pub proof fn export_item_is_named_by_number_and_extension(
    item: ExportItem,
    segment: ScreenMemorySegmentMetadata,
    number: nat,
)
    requires
        exports(item, segment, number),
    ensures
        item.source == segment.path,
        item.mime_type == segment.mime_type,
        reads_alike(segment.path@) ==> item.file_name@ == "segment-"@ + two_digits(number) + "."@
            + (match file_name_of(segment.path@) {
            Some(name) => match extension_of(name) {
                Some(extension) => extension,
                None => "mp4"@,
            },
            None => "mp4"@,
        }),
{
}

} // verus!
