//! The recorder's settings: their bounds, and what the user's commands make of them.

use vstd::prelude::*;

verus! {

pub const MIN_SEGMENT_SECONDS: u64 = 15;

pub const MAX_SEGMENT_SECONDS: u64 = 30 * 60;

pub const MIN_RETENTION_HOURS: u32 = 1;

pub const MAX_RETENTION_HOURS: u32 = 24 * 30;

pub const MIN_MAX_BYTES: u64 = 100 * 1024 * 1024;

pub const MAX_MAX_BYTES: u64 = 1024 * 1024 * 1024 * 1024;

/// The settings of Screen Memory.
#[derive(Clone, Copy, Debug, PartialEq, Eq, Structural)]
pub struct ScreenMemoryConfig {
    pub enabled: bool,
    pub paused: bool,
    pub retention_hours: u32,
    pub max_bytes: u64,
    pub segment_seconds: u64,
    pub sample_interval_seconds: u64,
}

/// The number closest to `value` that lies between `low` and `high`.
pub open spec fn clamped(value: int, low: int, high: int) -> int {
    if value < low {
        low
    } else if value > high {
        high
    } else {
        value
    }
}

/// `value`, brought between `low` and `high`.
pub fn clamp_u64(value: u64, low: u64, high: u64) -> (r: u64)
    requires
        low <= high,
    ensures
        r == clamped(value as int, low as int, high as int),
        low <= r <= high,
        r == value || (r == low && value < low) || (r == high && value > high),
{
    if value < low {
        low
    } else if value > high {
        high
    } else {
        value
    }
}

impl ScreenMemoryConfig {
    /// Every setting is within its bounds.
    pub open spec fn in_bounds(self) -> bool {
        &&& MIN_RETENTION_HOURS <= self.retention_hours <= MAX_RETENTION_HOURS
        &&& MIN_MAX_BYTES <= self.max_bytes <= MAX_MAX_BYTES
        &&& MIN_SEGMENT_SECONDS <= self.segment_seconds <= MAX_SEGMENT_SECONDS
        &&& 1 <= self.sample_interval_seconds <= self.segment_seconds
    }

    /// The settings with every number brought within its bounds.
    pub open spec fn normalized(self) -> ScreenMemoryConfig {
        let segment_seconds = clamped(
            self.segment_seconds as int,
            MIN_SEGMENT_SECONDS as int,
            MAX_SEGMENT_SECONDS as int,
        );
        ScreenMemoryConfig {
            retention_hours: clamped(
                self.retention_hours as int,
                MIN_RETENTION_HOURS as int,
                MAX_RETENTION_HOURS as int,
            ) as u32,
            max_bytes: clamped(
                self.max_bytes as int,
                MIN_MAX_BYTES as int,
                MAX_MAX_BYTES as int,
            ) as u64,
            segment_seconds: segment_seconds as u64,
            sample_interval_seconds: clamped(
                self.sample_interval_seconds as int,
                1,
                segment_seconds,
            ) as u64,
            ..self
        }
    }

    /// The settings with both switches set.
    pub open spec fn switched(self, enabled: bool, paused: bool) -> ScreenMemoryConfig {
        ScreenMemoryConfig { enabled, paused, ..self }
    }

    /// The settings ask for recording.
    pub open spec fn wants_capture(self) -> bool {
        self.enabled && !self.paused
    }
}

/// The numbers of `r` are those of `config`.
pub open spec fn has_the_same_numbers(config: ScreenMemoryConfig, r: ScreenMemoryConfig) -> bool {
    &&& r.retention_hours == config.retention_hours
    &&& r.max_bytes == config.max_bytes
    &&& r.segment_seconds == config.segment_seconds
    &&& r.sample_interval_seconds == config.sample_interval_seconds
}

/// The numbers of `r` are those of `config`, each moved to the nearest bound where it lies outside.
pub open spec fn numbers_are_brought_into_bounds(
    config: ScreenMemoryConfig,
    r: ScreenMemoryConfig,
) -> bool {
    &&& is_nearest(config.retention_hours as int, r.retention_hours as int, 1, 720)
    &&& is_nearest(
        config.max_bytes as int,
        r.max_bytes as int,
        104_857_600,
        1_099_511_627_776,
    )
    &&& is_nearest(config.segment_seconds as int, r.segment_seconds as int, 15, 1800)
    &&& is_nearest(
        config.sample_interval_seconds as int,
        r.sample_interval_seconds as int,
        1,
        r.segment_seconds as int,
    )
}

/// `r` has the switches of `config`, and its numbers brought into bounds.
pub open spec fn is_brought_into_bounds(config: ScreenMemoryConfig, r: ScreenMemoryConfig) -> bool {
    &&& r.enabled == config.enabled
    &&& r.paused == config.paused
    &&& numbers_are_brought_into_bounds(config, r)
}

/// Of the numbers from `low` to `high`, `r` is the nearest to `value`.
pub open spec fn is_nearest(value: int, r: int, low: int, high: int) -> bool {
    &&& low <= r <= high
    &&& forall|other: int|
        low <= other <= high ==> distance(value, r) <= #[trigger] distance(value, other)
}

/// How far two numbers are apart.
pub open spec fn distance(a: int, b: int) -> int {
    if a <= b {
        b - a
    } else {
        a - b
    }
}

/// Brings every setting within its bounds. The switches stay as they are.
pub fn normalize_screen_memory_config(config: ScreenMemoryConfig) -> (r: ScreenMemoryConfig)
    ensures
        r == config.normalized(),
        r.in_bounds(),
        is_brought_into_bounds(config, r),
{
    let retention_hours: u32 = if config.retention_hours < MIN_RETENTION_HOURS {
        MIN_RETENTION_HOURS
    } else if config.retention_hours > MAX_RETENTION_HOURS {
        MAX_RETENTION_HOURS
    } else {
        config.retention_hours
    };
    let segment_seconds: u64 = clamp_u64(
        config.segment_seconds,
        MIN_SEGMENT_SECONDS,
        MAX_SEGMENT_SECONDS,
    );
    ScreenMemoryConfig {
        enabled: config.enabled,
        paused: config.paused,
        retention_hours,
        max_bytes: clamp_u64(config.max_bytes, MIN_MAX_BYTES, MAX_MAX_BYTES),
        segment_seconds,
        sample_interval_seconds: clamp_u64(config.sample_interval_seconds, 1, segment_seconds),
    }
}

/// Whether the settings ask for recording.
pub fn capture_wanted(config: &ScreenMemoryConfig) -> (r: bool)
    ensures
        r == config.wants_capture(),
        r == (config.enabled && !config.paused),
{
    config.enabled && !config.paused
}

/// The settings to store when the user hands in `config`.
pub fn screen_memory_configure(config: ScreenMemoryConfig) -> (r: ScreenMemoryConfig)
    ensures
        r == config.normalized(),
        is_brought_into_bounds(config, r),
{
    normalize_screen_memory_config(config)
}

/// The settings to store when the user starts recording.
pub fn screen_memory_start(current: ScreenMemoryConfig) -> (r: ScreenMemoryConfig)
    ensures
        r == current.switched(true, false).normalized(),
        r.enabled == true,
        r.paused == false,
        numbers_are_brought_into_bounds(current, r),
{
    normalize_screen_memory_config(ScreenMemoryConfig { enabled: true, paused: false, ..current })
}

/// The settings to store when the user pauses recording.
pub fn screen_memory_pause(current: ScreenMemoryConfig) -> (r: ScreenMemoryConfig)
    ensures
        r == current.switched(true, true).normalized(),
        r.enabled == true,
        r.paused == true,
        numbers_are_brought_into_bounds(current, r),
{
    normalize_screen_memory_config(ScreenMemoryConfig { enabled: true, paused: true, ..current })
}

/// The settings to store when the user stops recording.
pub fn screen_memory_stop(current: ScreenMemoryConfig) -> (r: ScreenMemoryConfig)
    ensures
        r == current.switched(false, false).normalized(),
        r.enabled == false,
        r.paused == false,
        numbers_are_brought_into_bounds(current, r),
{
    normalize_screen_memory_config(ScreenMemoryConfig { enabled: false, paused: false, ..current })
}

/// The settings to store before everything is deleted: recording is off, the rest is untouched.
pub fn switched_off(current: ScreenMemoryConfig) -> (r: ScreenMemoryConfig)
    ensures
        r == current.switched(false, false),
        !r.enabled,
        !r.paused,
        has_the_same_numbers(current, r),
{
    ScreenMemoryConfig { enabled: false, paused: false, ..current }
}

/// What the recorder has to do after the settings were stored.
#[derive(Clone, Copy, Debug, PartialEq, Eq, Structural)]
pub enum SyncAction {
    /// Finish the segment in progress, if there is one.
    StopActive,
    /// Make sure that a segment is in progress under these settings.
    EnsureRunning(ScreenMemoryConfig),
}

/// Keeps the recorder aligned with the stored settings: whoever writes the settings has this
/// carried out, so every command uses the same local recorder.
pub fn sync_from_config(config: ScreenMemoryConfig) -> (r: SyncAction)
    ensures
        r == (if config.wants_capture() {
            SyncAction::EnsureRunning(config.normalized())
        } else {
            SyncAction::StopActive
        }),
        r is EnsureRunning <==> config.enabled && !config.paused,
        r matches SyncAction::EnsureRunning(normalized) ==> is_brought_into_bounds(
            config,
            normalized,
        ),
{
    let config = normalize_screen_memory_config(config);
    if !capture_wanted(&config) {
        SyncAction::StopActive
    } else {
        SyncAction::EnsureRunning(config)
    }
}

/// Whether the rotation worker goes on after a segment's time is up.
pub fn rotator_continues(config: ScreenMemoryConfig) -> (r: Option<ScreenMemoryConfig>)
    ensures
        r == (if config.wants_capture() {
            Some(config.normalized())
        } else {
            None
        }),
        r is Some <==> config.enabled && !config.paused,
        r matches Some(normalized) ==> is_brought_into_bounds(config, normalized),
{
    let config = normalize_screen_memory_config(config);
    if !capture_wanted(&config) {
        None
    } else {
        Some(config)
    }
}

/// Normalized settings are within their bounds.
pub proof fn normalized_is_in_bounds(config: ScreenMemoryConfig)
    ensures
        config.normalized().in_bounds(),
{
}

/// Settings within their bounds stay as they are.
pub proof fn normalized_keeps_settings_in_bounds(config: ScreenMemoryConfig)
    requires
        config.in_bounds(),
    ensures
        config.normalized() == config,
{
}

/// Normalizing twice is normalizing once.
pub proof fn normalized_is_idempotent(config: ScreenMemoryConfig)
    ensures
        config.normalized().normalized() == config.normalized(),
{
}

/// Normalizing never flips a switch, so it never changes whether recording is wanted.
pub proof fn normalized_keeps_switches(config: ScreenMemoryConfig)
    ensures
        config.normalized().enabled == config.enabled,
        config.normalized().paused == config.paused,
        config.normalized().wants_capture() == config.wants_capture(),
{
}

/// Of the settings that the start, pause and stop commands store, those of start alone make the
/// recorder run.
pub proof fn commands_decide_capture(current: ScreenMemoryConfig)
    ensures
        current.switched(true, false).normalized().wants_capture(),
        !current.switched(true, true).normalized().wants_capture(),
        !current.switched(false, false).normalized().wants_capture(),
        !current.switched(false, false).wants_capture(),
{
}

/// A command overrides the switches that an earlier command left: only the last one counts.
pub proof fn last_command_wins(
    current: ScreenMemoryConfig,
    enabled: bool,
    paused: bool,
    then_enabled: bool,
    then_paused: bool,
)
    ensures
        current.switched(enabled, paused).normalized().switched(
            then_enabled,
            then_paused,
        ).normalized() == current.switched(then_enabled, then_paused).normalized(),
{
}

/// Normalizing moves each number to the nearest one within its bounds, and leaves the switches.
pub proof fn normalizing_moves_to_the_nearest_bound(config: ScreenMemoryConfig)
    ensures
        is_brought_into_bounds(config, config.normalized()),
        config.normalized().enabled == config.enabled,
        config.normalized().paused == config.paused,
        1 <= config.normalized().retention_hours <= 720,
        1 <= config.retention_hours <= 720 ==> config.normalized().retention_hours
            == config.retention_hours,
        104_857_600 <= config.normalized().max_bytes <= 1_099_511_627_776,
        104_857_600 <= config.max_bytes <= 1_099_511_627_776 ==> config.normalized().max_bytes
            == config.max_bytes,
        15 <= config.normalized().segment_seconds <= 1800,
        15 <= config.segment_seconds <= 1800 ==> config.normalized().segment_seconds
            == config.segment_seconds,
        1 <= config.normalized().sample_interval_seconds <= config.normalized().segment_seconds,
        1 <= config.sample_interval_seconds <= config.normalized().segment_seconds
            ==> config.normalized().sample_interval_seconds == config.sample_interval_seconds,
{
}

/// Normalizing never turns a larger number into a smaller one.
pub proof fn normalizing_keeps_the_order(a: ScreenMemoryConfig, b: ScreenMemoryConfig)
    requires
        a.retention_hours <= b.retention_hours,
        a.max_bytes <= b.max_bytes,
        a.segment_seconds <= b.segment_seconds,
        a.sample_interval_seconds <= b.sample_interval_seconds,
    ensures
        a.normalized().retention_hours <= b.normalized().retention_hours,
        a.normalized().max_bytes <= b.normalized().max_bytes,
        a.normalized().segment_seconds <= b.normalized().segment_seconds,
        a.normalized().sample_interval_seconds <= b.normalized().sample_interval_seconds,
{
}

/// Setting the switches sets them and leaves every number; recording is wanted when it is enabled and
/// not paused.
pub proof fn switches_change_nothing_else(config: ScreenMemoryConfig, enabled: bool, paused: bool)
    ensures
        config.switched(enabled, paused).enabled == enabled,
        config.switched(enabled, paused).paused == paused,
        config.switched(enabled, paused).retention_hours == config.retention_hours,
        config.switched(enabled, paused).max_bytes == config.max_bytes,
        config.switched(enabled, paused).segment_seconds == config.segment_seconds,
        config.switched(enabled, paused).sample_interval_seconds == config.sample_interval_seconds,
        config.wants_capture() <==> config.enabled && !config.paused,
{
}

} // verus!
