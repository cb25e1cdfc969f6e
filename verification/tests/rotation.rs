use screen_memory::config::ScreenMemoryConfig;
use screen_memory::rotation::{
    rotator_step, RotationPoll, RotationWait, RotatorAction, RotatorEvent, WaitAction, WaitEvent,
    NANOS, ROTATOR_TICK_NANOS,
};

fn settings(segment_seconds: u64, sample_interval_seconds: u64) -> ScreenMemoryConfig {
    ScreenMemoryConfig {
        enabled: true,
        paused: false,
        retention_hours: 24,
        max_bytes: 1,
        segment_seconds,
        sample_interval_seconds,
    }
}

#[test]
fn a_wait_lasts_as_long_as_a_segment() {
    let wait = RotationWait::start(&settings(60, 5), 1000, 1001);
    assert_eq!(
        wait,
        RotationWait {
            deadline: 1000 + 60 * NANOS,
            sample_interval: 5 * NANOS,
            next_sample: 1001,
        }
    );
    assert_eq!(RotationWait::start(&settings(60, 0), 0, 0).sample_interval, NANOS);
}

#[test]
fn a_stop_comes_before_everything_else() {
    let wait = RotationWait::start(&settings(60, 5), 0, 0);
    assert_eq!(wait.poll(true, 0), RotationPoll::Stopped);
    assert_eq!(wait.poll(true, 60 * NANOS), RotationPoll::Stopped);
    assert_eq!(wait.poll(false, 60 * NANOS - 1), RotationPoll::Waiting);
    assert_eq!(wait.poll(false, 60 * NANOS), RotationPoll::Due);
}

#[test]
fn samples_are_an_interval_apart() {
    let mut wait = RotationWait::start(&settings(60, 5), 0, 10);
    assert!(!wait.sample_is_due(9));
    assert!(wait.sample_is_due(10));
    wait.note_sample(20);
    assert_eq!(wait.next_sample, 20 + 5 * NANOS);
    assert_eq!(wait.deadline, 60 * NANOS);
    assert!(!wait.sample_is_due(20));
}

#[test]
fn the_worker_sleeps_until_the_nearest_event() {
    let mut wait = RotationWait::start(&settings(60, 5), 0, 0);
    wait.note_sample(0);
    assert_eq!(ROTATOR_TICK_NANOS, 500_000_000);
    assert_eq!(wait.sleep_nanos(0, 0), ROTATOR_TICK_NANOS);
    assert_eq!(wait.sleep_nanos(5 * NANOS - 7, 5 * NANOS - 7), 7);
    assert_eq!(wait.sleep_nanos(5 * NANOS, 5 * NANOS), 0);
    wait.note_sample(60 * NANOS - 9);
    assert_eq!(wait.sleep_nanos(60 * NANOS - 9, 60 * NANOS - 8), 9);
    assert_eq!(wait.sleep_nanos(60 * NANOS, 60 * NANOS), 0);
}

#[test]
fn a_waiting_worker_meets_its_deadline() {
    let mut wait = RotationWait::start(&settings(15, 1), 0, 0);
    let mut now: u128 = 0;
    let mut samples = 0;
    while wait.poll(false, now) == RotationPoll::Waiting {
        if wait.sample_is_due(now) {
            samples += 1;
            wait.note_sample(now);
        }
        let sleep = wait.sleep_nanos(now, now);
        assert!(sleep > 0 && sleep <= ROTATOR_TICK_NANOS);
        now += sleep;
    }
    assert_eq!(now, 15 * NANOS);
    assert_eq!(samples, 15);
}

#[test]
fn a_wait_takes_its_steps_in_order() {
    let mut wait = RotationWait::start(&settings(60, 5), 0, 0);
    let woke = |stop_raised, now, then| WaitEvent::Woke { stop_raised, now, then };
    assert_eq!(wait.wait_for_rotation(woke(false, 1, 2)), WaitAction::Sample);
    assert_eq!(wait.wait_for_rotation(WaitEvent::Sampled { now: 3 }), WaitAction::Measure);
    assert_eq!(wait.next_sample, 3 + 5 * NANOS);
    assert_eq!(
        wait.wait_for_rotation(WaitEvent::Measured { now: 4, then: 5 }),
        WaitAction::Sleep(ROTATOR_TICK_NANOS)
    );
    assert_eq!(wait.wait_for_rotation(woke(false, 6, 7)), WaitAction::Measure);
    assert_eq!(
        wait.wait_for_rotation(WaitEvent::Measured { now: 5 * NANOS, then: 5 * NANOS }),
        WaitAction::Sleep(3)
    );
    assert_eq!(wait.wait_for_rotation(woke(false, 5 * NANOS, 5 * NANOS + 3)), WaitAction::Sample);
}

#[test]
fn no_sample_is_taken_after_a_stop_or_the_deadline() {
    let start = RotationWait::start(&settings(60, 5), 0, 0);
    let mut wait = start;
    let over = 60 * NANOS;
    let woke = |stop_raised, now, then| WaitEvent::Woke { stop_raised, now, then };
    assert_eq!(wait.wait_for_rotation(woke(true, 0, 0)), WaitAction::Return(true));
    assert_eq!(wait.wait_for_rotation(woke(true, over, over)), WaitAction::Return(true));
    assert_eq!(wait.wait_for_rotation(woke(false, over, over)), WaitAction::Return(false));
    assert_eq!(wait, start);
}

#[test]
fn a_worker_goes_its_rounds() {
    let wild = ScreenMemoryConfig { max_bytes: 104_857_600, ..settings(1, 1) };
    let tame = ScreenMemoryConfig { segment_seconds: 15, ..wild };
    assert!(matches!(
        rotator_step(RotatorEvent::Began(wild)),
        RotatorAction::Wait(config) if config == tame
    ));
    assert!(matches!(
        rotator_step(RotatorEvent::Waited(false)),
        RotatorAction::ReadSettings
    ));
    assert!(matches!(
        rotator_step(RotatorEvent::SettingsRead(wild)),
        RotatorAction::Rotate(config) if config == tame
    ));
    assert!(matches!(rotator_step(RotatorEvent::Rotated(Ok(()))), RotatorAction::Begin));
}

#[test]
fn a_worker_survives_a_failed_rotation() {
    assert!(matches!(
        rotator_step(RotatorEvent::Rotated(Err("io".to_string()))),
        RotatorAction::Note(reason) if reason == "io"
    ));
    assert!(matches!(rotator_step(RotatorEvent::Noted), RotatorAction::Begin));
}

#[test]
fn a_worker_ends_when_it_is_not_wanted() {
    assert!(matches!(rotator_step(RotatorEvent::Waited(true)), RotatorAction::End));
    for (enabled, paused) in [(false, false), (true, true)] {
        let config = ScreenMemoryConfig { enabled, paused, ..settings(60, 5) };
        assert!(matches!(
            rotator_step(RotatorEvent::SettingsRead(config)),
            RotatorAction::End
        ));
    }
}
