use screen_memory::config::{
    capture_wanted, clamp_u64, normalize_screen_memory_config, rotator_continues,
    screen_memory_configure, screen_memory_pause, screen_memory_start, screen_memory_stop,
    switched_off, sync_from_config, ScreenMemoryConfig, SyncAction, MAX_MAX_BYTES,
    MAX_RETENTION_HOURS, MAX_SEGMENT_SECONDS, MIN_MAX_BYTES, MIN_RETENTION_HOURS,
    MIN_SEGMENT_SECONDS,
};

fn usual() -> ScreenMemoryConfig {
    ScreenMemoryConfig {
        enabled: true,
        paused: false,
        retention_hours: 48,
        max_bytes: 5_000_000_000,
        segment_seconds: 300,
        sample_interval_seconds: 10,
    }
}

#[test]
fn bounds_have_their_values() {
    assert_eq!((MIN_SEGMENT_SECONDS, MAX_SEGMENT_SECONDS), (15, 1800));
    assert_eq!((MIN_RETENTION_HOURS, MAX_RETENTION_HOURS), (1, 720));
    assert_eq!((MIN_MAX_BYTES, MAX_MAX_BYTES), (104_857_600, 1_099_511_627_776));
}

#[test]
fn clamping_is_that_of_std() {
    for value in [0_u64, 4, 5, 6, 9, 10, 11, u64::MAX] {
        assert_eq!(clamp_u64(value, 5, 10), value.clamp(5, 10));
    }
    assert_eq!(clamp_u64(3, 7, 7), 7);
}

#[test]
fn settings_within_bounds_stay() {
    assert_eq!(normalize_screen_memory_config(usual()), usual());
}

#[test]
fn settings_below_bounds_are_raised() {
    let low = ScreenMemoryConfig {
        enabled: false,
        paused: true,
        retention_hours: 0,
        max_bytes: 0,
        segment_seconds: 0,
        sample_interval_seconds: 0,
    };
    let normalized = normalize_screen_memory_config(low);
    assert_eq!(
        normalized,
        ScreenMemoryConfig {
            enabled: false,
            paused: true,
            retention_hours: 1,
            max_bytes: 104_857_600,
            segment_seconds: 15,
            sample_interval_seconds: 1,
        }
    );
    assert_eq!(normalize_screen_memory_config(normalized), normalized);
}

#[test]
fn settings_above_bounds_are_lowered() {
    let high = ScreenMemoryConfig {
        enabled: true,
        paused: true,
        retention_hours: u32::MAX,
        max_bytes: u64::MAX,
        segment_seconds: u64::MAX,
        sample_interval_seconds: u64::MAX,
    };
    let normalized = normalize_screen_memory_config(high);
    assert_eq!(
        normalized,
        ScreenMemoryConfig {
            enabled: true,
            paused: true,
            retention_hours: 720,
            max_bytes: 1_099_511_627_776,
            segment_seconds: 1800,
            sample_interval_seconds: 1800,
        }
    );
    assert_eq!(normalize_screen_memory_config(normalized), normalized);
}

#[test]
fn samples_are_no_further_apart_than_a_clamped_segment_is_long() {
    let config = ScreenMemoryConfig { segment_seconds: 3, sample_interval_seconds: 60, ..usual() };
    let normalized = normalize_screen_memory_config(config);
    assert_eq!((normalized.segment_seconds, normalized.sample_interval_seconds), (15, 15));
}

#[test]
fn commands_set_the_switches() {
    let current = ScreenMemoryConfig { retention_hours: 9999, ..usual() };
    let started = screen_memory_start(current);
    assert_eq!((started.enabled, started.paused, started.retention_hours), (true, false, 720));
    let paused = screen_memory_pause(current);
    assert_eq!((paused.enabled, paused.paused, paused.retention_hours), (true, true, 720));
    let stopped = screen_memory_stop(current);
    assert_eq!((stopped.enabled, stopped.paused, stopped.retention_hours), (false, false, 720));
    assert!(capture_wanted(&started));
    assert!(!capture_wanted(&paused));
    assert!(!capture_wanted(&stopped));
    assert_eq!(screen_memory_configure(current), normalize_screen_memory_config(current));
}

#[test]
fn the_last_command_counts() {
    let current = ScreenMemoryConfig { segment_seconds: 1, ..usual() };
    assert_eq!(screen_memory_stop(screen_memory_pause(current)), screen_memory_stop(current));
    assert_eq!(screen_memory_start(screen_memory_stop(current)), screen_memory_start(current));
}

#[test]
fn switching_off_leaves_the_rest() {
    let odd = ScreenMemoryConfig { retention_hours: 0, paused: true, ..usual() };
    assert_eq!(
        switched_off(odd),
        ScreenMemoryConfig { enabled: false, paused: false, retention_hours: 0, ..usual() }
    );
}

#[test]
fn stored_settings_steer_the_recorder() {
    let wild = ScreenMemoryConfig { segment_seconds: 1, ..usual() };
    let tame = ScreenMemoryConfig { segment_seconds: 15, ..usual() };
    assert_eq!(sync_from_config(wild), SyncAction::EnsureRunning(tame));
    assert_eq!(rotator_continues(wild), Some(tame));
    for (enabled, paused) in [(true, true), (false, false), (false, true)] {
        let off = ScreenMemoryConfig { enabled, paused, ..wild };
        assert_eq!(sync_from_config(off), SyncAction::StopActive);
        assert_eq!(rotator_continues(off), None);
    }
}
