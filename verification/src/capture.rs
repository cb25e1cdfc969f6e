//! Starting a recording: where it can be done, and which way of recording is taken.

use crate::clock::{millis_of, UtcTime};
use crate::segment::{
    media_file, next_segment_id, sanitized, segment_id_text, segment_media_file, ActiveScreenMemorySegment,
    MP4_RECORDING_MIME_TYPE, QUICKTIME_RECORDING_MIME_TYPE,
};
use vstd::prelude::*;
use vstd::string::*;

verus! {

/// Where the system's own capture tool lies.
pub const CAPTURE_TOOL: &'static str = "/usr/sbin/screencapture";

/// Whether Screen Memory can record here: on macOS, with the system's capture tool in place.
pub fn screen_memory_available(is_macos: bool, capture_tool_exists: bool) -> (r: bool)
    ensures
        r == (is_macos && capture_tool_exists),
{
    is_macos && capture_tool_exists
}

/// What recording needs of the disk, and what the disk has.
pub struct DiskSpace {
    /// The free bytes, where they could be told.
    pub free: Option<u64>,
    /// The bytes below which nothing is recorded.
    pub required: u64,
    /// The free bytes, as the user is told of them.
    pub free_text: String,
    /// The required bytes, as the user is told of them.
    pub required_text: String,
}

/// A recording that is about to be started.
pub struct StartPlan {
    pub id: String,
    /// The file that ScreenCaptureKit records into, within the storage folder.
    pub mp4_file: String,
    /// The file that the capture tool records into, within the storage folder.
    pub mov_file: String,
}

/// The disk is known to have less free than recording needs.
pub open spec fn is_short(space: DiskSpace) -> bool {
    space.free matches Some(free) && free < space.required
}

/// What the user is told when the disk is too full.
pub open spec fn disk_message(required_text: Seq<char>, free_text: Seq<char>) -> Seq<char> {
    "Not enough disk space to start Screen Memory. Free up at least "@ + required_text
        + " and try again (currently "@ + free_text + " free)."@
}

/// What the user is told where nothing can be recorded.
pub const MACOS_ONLY: &'static str = "Screen Memory capture is currently macOS-only.";

/// What the user is told where nothing can be recorded.
pub open spec fn macos_only() -> Seq<char> {
    MACOS_ONLY@
}

/// What the user is told where nothing can be recorded.
pub fn macos_only_message() -> (r: String)
    ensures
        r@ == macos_only(),
{
    MACOS_ONLY.to_string()
}

/// Whether a recording may be started, or what the user is told otherwise.
pub fn check_start(is_macos: bool, space: &DiskSpace) -> (r: Result<(), String>)
    ensures
        match r {
            Ok(()) => is_macos && !is_short(*space),
            Err(message) => if !is_macos {
                message@ == macos_only()
            } else {
                is_short(*space) && message@ == disk_message(
                    space.required_text@,
                    space.free_text@,
                )
            },
        },
        r is Ok <==> is_macos && !(space.free matches Some(free) && free < space.required),
        r matches Err(message) ==> (!is_macos ==> message@
            == "Screen Memory capture is currently macOS-only."@) && (is_macos ==> message@
            == "Not enough disk space to start Screen Memory. Free up at least "@
            + space.required_text@ + " and try again (currently "@ + space.free_text@
            + " free)."@),
{
    if !is_macos {
        return Err(macos_only_message());
    }
    match space.free {
        Some(free) => {
            if free < space.required {
                let message =
                    "Not enough disk space to start Screen Memory. Free up at least ".to_string().concat(
                space.required_text.as_str()).concat(" and try again (currently ").concat(
                    space.free_text.as_str(),
                ).concat(" free).");
                return Err(message);
            }
        },
        None => {},
    }
    Ok(())
}

/// The files of a recording with this id.
pub fn plan_recording(id: String) -> (r: StartPlan)
    ensures
        r.id == id,
        r.mp4_file@ == media_file(id@, "mp4"@),
        r.mov_file@ == media_file(id@, "mov"@),
        r.mp4_file@ == sanitized(id@) + "."@ + "mp4"@,
        r.mov_file@ == sanitized(id@) + "."@ + "mov"@,
{
    proof {
        reveal_strlit("mp4");
        reveal_strlit("mov");
    }
    let mp4_file = segment_media_file(id.as_str(), "mp4");
    let mov_file = segment_media_file(id.as_str(), "mov");
    StartPlan { id, mp4_file, mov_file }
}

/// Begins the `counter`-th recording of the process, unless it may not be started.
pub fn start_new_segment(is_macos: bool, space: &DiskSpace, counter: u64) -> (r: Result<
    StartPlan,
    String,
>)
    ensures
        match r {
            Ok(plan) => {
                &&& is_macos && !is_short(*space)
                &&& exists|now: UtcTime|
                    #[trigger] now.shown_by_clock() && now.is_clock_time() && plan.id@ == segment_id_text(
                        millis_of(now) as nat,
                        counter as nat,
                    )
                &&& plan.mp4_file@ == media_file(plan.id@, "mp4"@)
                &&& plan.mov_file@ == media_file(plan.id@, "mov"@)
            },
            Err(message) => if !is_macos {
                message@ == macos_only()
            } else {
                is_short(*space) && message@ == disk_message(
                    space.required_text@,
                    space.free_text@,
                )
            },
        },
        r is Ok <==> is_macos && !(space.free matches Some(free) && free < space.required),
        r matches Err(message) ==> (!is_macos ==> message@
            == "Screen Memory capture is currently macOS-only."@) && (is_macos ==> message@
            == "Not enough disk space to start Screen Memory. Free up at least "@
            + space.required_text@ + " and try again (currently "@ + space.free_text@
            + " free)."@),
{
    match check_start(is_macos, space) {
        Ok(()) => Ok(plan_recording(next_segment_id(counter))),
        Err(message) => Err(message),
    }
}

/// A recording that was started, with the size that it told of.
pub struct StartedBackend<B> {
    pub backend: B,
    /// Where the recording lies.
    pub path: String,
    pub started_at_iso: String,
    pub width: Option<u32>,
    pub height: Option<u32>,
}

/// How an attempt to start a recording ended.
pub enum StartAttempt<B> {
    /// ScreenCaptureKit was tried first.
    ScreenCaptureKit(Result<StartedBackend<B>, String>),
    /// The capture tool was tried next.
    CaptureTool(Result<StartedBackend<B>, String>),
}

/// What follows an attempt to start a recording.
pub enum StartAction<B> {
    /// The recording runs.
    Recording(ActiveScreenMemorySegment<B>),
    /// The capture tool is tried next. The text says why ScreenCaptureKit could not be used.
    TryCaptureTool(String),
    /// The recording could not be started, for this reason.
    Failed(String),
}

/// `told`, or `other` where nothing was told.
pub open spec fn or_else(told: Option<u32>, other: Option<u32>) -> Option<u32> {
    match told {
        Some(value) => Some(value),
        None => other,
    }
}

/// `active` is the recording `started` under `id`.
pub open spec fn is_recording_of<B>(
    active: ActiveScreenMemorySegment<B>,
    id: Seq<char>,
    mime_type: Seq<char>,
    started: StartedBackend<B>,
    monitor: (Option<u32>, Option<u32>),
) -> bool {
    &&& active.id@ == id
    &&& active.path == started.path
    &&& active.mime_type@ == mime_type
    &&& active.backend == started.backend
    &&& active.started_at_iso == started.started_at_iso
    &&& active.width == or_else(started.width, monitor.0)
    &&& active.height == or_else(started.height, monitor.1)
}

fn first_told(told: Option<u32>, other: Option<u32>) -> (r: Option<u32>)
    ensures
        r == or_else(told, other),
{
    match told {
        Some(value) => Some(value),
        None => other,
    }
}

fn recording<B>(
    id: &str,
    mime_type: &str,
    started: StartedBackend<B>,
    monitor: (Option<u32>, Option<u32>),
) -> (r: ActiveScreenMemorySegment<B>)
    ensures
        is_recording_of(r, id@, mime_type@, started, monitor),
{
    ActiveScreenMemorySegment {
        id: id.to_string(),
        path: started.path,
        mime_type: mime_type.to_string(),
        backend: started.backend,
        started_at_iso: started.started_at_iso,
        width: first_told(started.width, monitor.0),
        height: first_told(started.height, monitor.1),
    }
}

/// Decides what follows an attempt to start the recording `id`. `monitor` is the size to note where
/// the recording tells of none.
pub fn after_start_attempt<B>(
    id: &str,
    monitor: (Option<u32>, Option<u32>),
    attempt: StartAttempt<B>,
) -> (r: StartAction<B>)
    ensures
        match attempt {
            StartAttempt::ScreenCaptureKit(Ok(started)) => r matches StartAction::Recording(active)
                && is_recording_of(active, id@, MP4_RECORDING_MIME_TYPE@, started, monitor),
            StartAttempt::ScreenCaptureKit(Err(err)) => r == StartAction::<B>::TryCaptureTool(err),
            StartAttempt::CaptureTool(Ok(started)) => r matches StartAction::Recording(active)
                && is_recording_of(active, id@, QUICKTIME_RECORDING_MIME_TYPE@, started, monitor),
            StartAttempt::CaptureTool(Err(err)) => r == StartAction::<B>::Failed(err),
        },
        attempt matches StartAttempt::ScreenCaptureKit(Ok(started)) ==> (r
            matches StartAction::Recording(active) && active.id@ == id@ && active.path
            == started.path && active.mime_type@ == "video/mp4"@ && active.backend
            == started.backend && active.started_at_iso == started.started_at_iso && active.width
            == (if started.width is Some {
            started.width
        } else {
            monitor.0
        }) && active.height == (if started.height is Some {
            started.height
        } else {
            monitor.1
        })),
        attempt matches StartAttempt::CaptureTool(Ok(started)) ==> (r
            matches StartAction::Recording(active) && active.id@ == id@ && active.path
            == started.path && active.mime_type@ == "video/quicktime"@ && active.backend
            == started.backend && active.started_at_iso == started.started_at_iso && active.width
            == (if started.width is Some {
            started.width
        } else {
            monitor.0
        }) && active.height == (if started.height is Some {
            started.height
        } else {
            monitor.1
        })),
{
    match attempt {
        StartAttempt::ScreenCaptureKit(outcome) => match outcome {
            Ok(started) => StartAction::Recording(
                recording(id, MP4_RECORDING_MIME_TYPE, started, monitor),
            ),
            Err(err) => StartAction::TryCaptureTool(err),
        },
        StartAttempt::CaptureTool(outcome) => match outcome {
            Ok(started) => StartAction::Recording(
                recording(id, QUICKTIME_RECORDING_MIME_TYPE, started, monitor),
            ),
            Err(err) => StartAction::Failed(err),
        },
    }
}

/// What a recording is known by, field by field: the size is the one that it told of, or else the
/// monitor's.
pub proof fn recording_keeps_every_field<B>(
    active: ActiveScreenMemorySegment<B>,
    id: Seq<char>,
    mime_type: Seq<char>,
    started: StartedBackend<B>,
    monitor: (Option<u32>, Option<u32>),
)
    requires
        is_recording_of(active, id, mime_type, started, monitor),
    ensures
        active.id@ == id,
        active.path == started.path,
        active.mime_type@ == mime_type,
        active.backend == started.backend,
        active.started_at_iso == started.started_at_iso,
        started.width is Some ==> active.width == started.width,
        started.width is None ==> active.width == monitor.0,
        started.height is Some ==> active.height == started.height,
        started.height is None ==> active.height == monitor.1,
{
}

/// The disk is too full when it is known to have less than is required, and only then; what the user
/// is told names what is required and what is free.
pub proof fn disk_is_short_below_what_is_required(
    space: DiskSpace,
    required: Seq<char>,
    free: Seq<char>,
)
    ensures
        space.free is None ==> !is_short(space),
        space.free matches Some(bytes) ==> (is_short(space) <==> bytes < space.required),
        disk_message(required, free)
            == "Not enough disk space to start Screen Memory. Free up at least "@ + required
            + " and try again (currently "@ + free + " free)."@,
        macos_only() == "Screen Memory capture is currently macOS-only."@,
{
}

} // verus!
