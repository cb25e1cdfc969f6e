//! What the user is told of the recorder.

use crate::catalog::recent_segments;
use crate::config::{
    is_brought_into_bounds, normalize_screen_memory_config, ScreenMemoryConfig,
};
use crate::order::{first_records, newest_first_of};
use crate::runtime::ScreenMemoryState;
use crate::segment::{ActiveScreenMemorySegment, ScreenMemorySegmentMetadata};
use crate::text::text_le;
use vstd::prelude::*;

verus! {

/// The event that tells listeners of a change.
pub const SCREEN_MEMORY_EVENT: &'static str = "clips:screen-memory-changed";

/// The segments that a status shows.
pub const STATUS_SEGMENTS: usize = 5;

/// What the recorder is doing.
#[derive(Clone, Copy, Debug, PartialEq, Eq, Structural)]
pub enum ScreenMemoryRuntimeState {
    Disabled,
    Idle,
    Recording,
    Paused,
}

/// The segment in progress, as the user is told of it.
#[derive(Clone, Debug)]
pub struct ScreenMemoryActiveSegment {
    pub id: String,
    pub path: String,
    pub mime_type: String,
    pub started_at: String,
    pub duration_ms: u128,
    pub width: Option<u32>,
    pub height: Option<u32>,
}

/// The state of Screen Memory.
#[derive(Clone, Debug)]
pub struct ScreenMemoryStatus {
    pub available: bool,
    pub state: ScreenMemoryRuntimeState,
    pub config: ScreenMemoryConfig,
    pub storage_dir: String,
    pub active_segment: Option<ScreenMemoryActiveSegment>,
    pub recent_segments: Vec<ScreenMemorySegmentMetadata>,
    pub last_error: Option<String>,
}

/// What the recorder is doing under `config`: disabled whatever else holds, then recording while a
/// segment is in progress, then paused or idle.
pub open spec fn state_of(config: ScreenMemoryConfig, recording: bool) -> ScreenMemoryRuntimeState {
    if !config.enabled {
        ScreenMemoryRuntimeState::Disabled
    } else if recording {
        ScreenMemoryRuntimeState::Recording
    } else if config.paused {
        ScreenMemoryRuntimeState::Paused
    } else {
        ScreenMemoryRuntimeState::Idle
    }
}

/// What the recorder is doing under `config`.
pub fn runtime_state(config: &ScreenMemoryConfig, recording: bool) -> (r: ScreenMemoryRuntimeState)
    ensures
        r == state_of(*config, recording),
        r is Disabled <==> !config.enabled,
        r is Recording <==> config.enabled && recording,
        r is Paused <==> config.enabled && !recording && config.paused,
        r is Idle <==> config.enabled && !recording && !config.paused,
{
    if !config.enabled {
        ScreenMemoryRuntimeState::Disabled
    } else if recording {
        ScreenMemoryRuntimeState::Recording
    } else if config.paused {
        ScreenMemoryRuntimeState::Paused
    } else {
        ScreenMemoryRuntimeState::Idle
    }
}

/// `shown` tells of `active`, which has been recorded for `duration_ms`.
pub open spec fn shows<B>(
    shown: ScreenMemoryActiveSegment,
    active: ActiveScreenMemorySegment<B>,
    duration_ms: u128,
) -> bool {
    &&& shown.id == active.id
    &&& shown.path == active.path
    &&& shown.mime_type == active.mime_type
    &&& shown.started_at == active.started_at_iso
    &&& shown.duration_ms == duration_ms
    &&& shown.width == active.width
    &&& shown.height == active.height
}

/// The segment in progress, as the user is told of it after `duration_ms`.
pub fn show_active<B>(active: &ActiveScreenMemorySegment<B>, duration_ms: u128) -> (r:
    ScreenMemoryActiveSegment)
    ensures
        shows(r, *active, duration_ms),
        r.id == active.id,
        r.path == active.path,
        r.mime_type == active.mime_type,
        r.started_at == active.started_at_iso,
        r.duration_ms == duration_ms,
        r.width == active.width,
        r.height == active.height,
{
    ScreenMemoryActiveSegment {
        id: active.id.clone(),
        path: active.path.clone(),
        mime_type: active.mime_type.clone(),
        started_at: active.started_at_iso.clone(),
        duration_ms,
        width: active.width,
        height: active.height,
    }
}

/// What a look at the state showed.
pub struct RuntimeSnapshot {
    pub active_segment: Option<ScreenMemoryActiveSegment>,
    pub last_error: Option<String>,
}

/// Looks at the state. `duration_ms` is how long the segment in progress, if there is one, has been
/// recorded.
pub fn snapshot<B, W>(state: &ScreenMemoryState<B, W>, duration_ms: u128) -> (r: RuntimeSnapshot)
    ensures
        match state.inner.active {
            Some(active) => r.active_segment matches Some(shown) && shows(
                shown,
                active,
                duration_ms,
            ),
            None => r.active_segment is None,
        },
        r.last_error == state.inner.last_error,
        r.active_segment is Some <==> state.inner.active is Some,
{
    let active_segment = match &state.inner.active {
        Some(active) => Some(show_active(active, duration_ms)),
        None => None,
    };
    let last_error = match &state.inner.last_error {
        Some(error) => Some(error.clone()),
        None => None,
    };
    RuntimeSnapshot { active_segment, last_error }
}

/// The state of Screen Memory under the stored settings `config`.
pub fn build_status(
    config: ScreenMemoryConfig,
    available: bool,
    storage_dir: String,
    runtime: RuntimeSnapshot,
    found: Vec<ScreenMemorySegmentMetadata>,
) -> (r: ScreenMemoryStatus)
    ensures
        r.available == available,
        r.state == state_of(config, runtime.active_segment is Some),
        r.config == config.normalized(),
        r.storage_dir == storage_dir,
        r.active_segment == runtime.active_segment,
        r.recent_segments@ == first_records(newest_first_of(found@), STATUS_SEGMENTS as int),
        r.last_error == runtime.last_error,
        r.state is Disabled <==> !config.enabled,
        r.state is Recording <==> config.enabled && runtime.active_segment is Some,
        r.state is Paused <==> config.enabled && runtime.active_segment is None && config.paused,
        r.state is Idle <==> config.enabled && runtime.active_segment is None && !config.paused,
        is_brought_into_bounds(config, r.config),
        forall|i: int, j: int|
            0 <= i <= j < r.recent_segments@.len() ==> text_le(
                (#[trigger] r.recent_segments@[j]).ended_at@,
                (#[trigger] r.recent_segments@[i]).ended_at@,
            ),
        r.recent_segments@.len() == (if found@.len() > 5 {
            5
        } else {
            found@.len() as int
        }),
        forall|i: int|
            0 <= i < r.recent_segments@.len() ==> found@.contains(#[trigger] r.recent_segments@[i]),
{
    let config = normalize_screen_memory_config(config);
    let state = runtime_state(&config, runtime.active_segment.is_some());
    ScreenMemoryStatus {
        available,
        state,
        config,
        storage_dir,
        active_segment: runtime.active_segment,
        recent_segments: recent_segments(found, Some(STATUS_SEGMENTS)),
        last_error: runtime.last_error,
    }
}

/// The state of Screen Memory that the user asks for. `duration_ms` is how long the segment in
/// progress, if there is one, has been recorded.
pub fn screen_memory_status<B, W>(
    config: ScreenMemoryConfig,
    available: bool,
    storage_dir: String,
    state: &ScreenMemoryState<B, W>,
    duration_ms: u128,
    found: Vec<ScreenMemorySegmentMetadata>,
) -> (r: ScreenMemoryStatus)
    ensures
        r.available == available,
        r.state == state_of(config, state.recording()),
        r.config == config.normalized(),
        r.storage_dir == storage_dir,
        match state.inner.active {
            Some(active) => r.active_segment matches Some(shown) && shows(
                shown,
                active,
                duration_ms,
            ),
            None => r.active_segment is None,
        },
        r.recent_segments@ == first_records(newest_first_of(found@), STATUS_SEGMENTS as int),
        r.last_error == state.inner.last_error,
        r.state is Disabled <==> !config.enabled,
        r.state is Recording <==> config.enabled && state.inner.active is Some,
        r.state is Paused <==> config.enabled && state.inner.active is None && config.paused,
        r.state is Idle <==> config.enabled && state.inner.active is None && !config.paused,
        is_brought_into_bounds(config, r.config),
        forall|i: int, j: int|
            0 <= i <= j < r.recent_segments@.len() ==> text_le(
                (#[trigger] r.recent_segments@[j]).ended_at@,
                (#[trigger] r.recent_segments@[i]).ended_at@,
            ),
        r.recent_segments@.len() == (if found@.len() > 5 {
            5
        } else {
            found@.len() as int
        }),
        forall|i: int|
            0 <= i < r.recent_segments@.len() ==> found@.contains(#[trigger] r.recent_segments@[i]),
{
    build_status(config, available, storage_dir, snapshot(state, duration_ms), found)
}

/// The four states, each with when it is shown.
pub proof fn states_are_told_apart(config: ScreenMemoryConfig, recording: bool)
    ensures
        state_of(config, recording) is Disabled <==> !config.enabled,
        state_of(config, recording) is Recording <==> config.enabled && recording,
        state_of(config, recording) is Paused <==> config.enabled && config.paused && !recording,
        state_of(config, recording) is Idle <==> config.wants_capture() && !recording,
{
}

/// What each command makes the user see while no segment is in progress.
pub proof fn commands_show_their_state(current: ScreenMemoryConfig)
    ensures
        state_of(current.switched(true, false).normalized(), false) is Idle,
        state_of(current.switched(true, true).normalized(), false) is Paused,
        state_of(current.switched(false, false).normalized(), false) is Disabled,
{
}

/// What is shown of the segment in progress, field by field.
pub proof fn shown_segment_keeps_every_field<B>(
    shown: ScreenMemoryActiveSegment,
    active: ActiveScreenMemorySegment<B>,
    duration_ms: u128,
)
    requires
        shows(shown, active, duration_ms),
    ensures
        shown.id == active.id,
        shown.path == active.path,
        shown.mime_type == active.mime_type,
        shown.started_at == active.started_at_iso,
        shown.duration_ms == duration_ms,
        shown.width == active.width,
        shown.height == active.height,
{
}

} // verus!
