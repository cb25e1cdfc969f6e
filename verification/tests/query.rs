use screen_memory::clock::{current_time, minutes_before, write_stamp, UtcTime};
use screen_memory::event::ScreenMemoryEvent;
use screen_memory::query::{
    plan_query, query_screen_memory, screen_memory_query, segment_matches, DEFAULT_QUERY_LIMIT,
    DEFAULT_QUERY_MINUTES, MAX_QUERY_LIMIT, MAX_RANGE_MINUTES,
};
use screen_memory::segment::ScreenMemorySegmentMetadata;

fn segment(id: &str, ended_at: &str) -> ScreenMemorySegmentMetadata {
    ScreenMemorySegmentMetadata {
        id: id.to_string(),
        path: format!("/Movies/{id}.mp4"),
        file_name: format!("{id}.MP4"),
        mime_type: "video/mp4".to_string(),
        started_at: String::new(),
        ended_at: ended_at.to_string(),
        duration_ms: 0,
        width: None,
        height: None,
        bytes: 1,
        corrupt: false,
        error: None,
    }
}

fn event(captured_at: &str, app: &str) -> ScreenMemoryEvent {
    ScreenMemoryEvent {
        captured_at: captured_at.to_string(),
        app_name: Some(app.to_string()),
        window_title: None,
        bundle_id: None,
        source: "test".to_string(),
    }
}

/// 2024-01-01T00:00:00Z
const NOW: UtcTime = UtcTime { secs: 1_704_067_200, nanos: 7 };

#[test]
fn searches_have_their_limits() {
    assert_eq!((DEFAULT_QUERY_MINUTES, DEFAULT_QUERY_LIMIT), (30, 40));
    assert_eq!((MAX_RANGE_MINUTES, MAX_QUERY_LIMIT), (43_200, 500));
}

#[test]
fn a_plan_trims_and_lowers_the_query() {
    let plan = plan_query(Some("  \u{c4}pfel UND Birnen\t".to_string()), 10, 5, NOW);
    assert_eq!(plan.query.as_deref(), Some("\u{c4}pfel UND Birnen"));
    assert_eq!(plan.query_lc.as_deref(), Some("\u{e4}pfel und birnen"));
    assert_eq!((plan.minutes, plan.limit), (10, 5));
    assert_eq!((plan.cutoff.secs, plan.cutoff.nanos), (NOW.secs - 600, 7));
}

#[test]
fn a_blank_query_searches_for_nothing() {
    for query in [None, Some(String::new()), Some(" \n ".to_string())] {
        let plan = plan_query(query, 10, 5, NOW);
        assert_eq!((plan.query, plan.query_lc), (None, None));
    }
}

#[test]
fn range_and_limit_are_clamped() {
    let plan = plan_query(None, 0, 0, NOW);
    assert_eq!((plan.minutes, plan.limit), (1, 1));
    assert_eq!(plan.cutoff.secs, NOW.secs - 60);
    let plan = plan_query(None, u64::MAX, usize::MAX, NOW);
    assert_eq!((plan.minutes, plan.limit), (43_200, 500));
    assert_eq!(plan.cutoff.secs, NOW.secs - 43_200 * 60);
}

#[test]
fn a_search_is_planned_from_now() {
    let before = chrono::Utc::now().timestamp();
    let plan = screen_memory_query(Some("x".to_string()), None, None);
    let after = chrono::Utc::now().timestamp();
    assert_eq!((plan.minutes, plan.limit), (30, 40));
    assert!(before - 1800 <= plan.cutoff.secs && plan.cutoff.secs <= after - 1800);
    let plan = screen_memory_query(None, Some(3), Some(9));
    assert_eq!((plan.query, plan.minutes, plan.limit), (None, 3, 9));
}

#[test]
fn a_segment_is_found_by_id_name_or_path() {
    let shown = segment("Segment-1", "now");
    assert!(segment_matches(&shown, None));
    assert!(segment_matches(&shown, Some("segment-1")));
    assert!(segment_matches(&shown, Some("1.mp4")));
    assert!(segment_matches(&shown, Some("movies")));
    assert!(!segment_matches(&shown, Some("Movies")));
    assert!(!segment_matches(&shown, Some("segment-2")));
}

#[test]
fn a_search_gives_events_and_segments() {
    let plan = plan_query(Some("Mail".to_string()), 10, 5, NOW);
    let result = query_screen_memory(
        plan,
        vec![
            event("2023-12-31T23:55:00+00:00", "Mail"),
            event("2023-12-31T23:49:00+00:00", "Mail"),
            event("2023-12-31T23:56:00+00:00", "Editor"),
            event("2023-12-31T23:57:00+00:00", "AirMail"),
        ],
        vec![
            segment("mail-1", "2023-12-31T23:51:00+00:00"),
            segment("other", "2023-12-31T23:52:00+00:00"),
            segment("MAIL-2", "2023-12-31T23:53:00+00:00"),
            segment("mail-3", "2023-12-31T22:00:00+00:00"),
        ],
    );
    assert_eq!(result.query.as_deref(), Some("Mail"));
    assert_eq!(result.minutes, 10);
    let apps: Vec<&str> =
        result.events.iter().map(|event| event.app_name.as_deref().unwrap()).collect();
    assert_eq!(apps, vec!["AirMail", "Mail"]);
    let ids: Vec<&str> = result.segments.iter().map(|segment| segment.id.as_str()).collect();
    assert_eq!(ids, vec!["MAIL-2", "mail-1"]);
}

#[test]
fn a_search_keeps_what_has_no_readable_date() {
    let result = query_screen_memory(
        plan_query(None, 1, 5, NOW),
        vec![event("some day", "Mail")],
        vec![segment("a", "some day")],
    );
    assert_eq!((result.events.len(), result.segments.len()), (1, 1));
}

#[test]
fn a_limit_keeps_the_newest_of_each() {
    let stamp = |n: i64| write_stamp(UtcTime { secs: NOW.secs - n, nanos: 0 });
    let result = query_screen_memory(
        plan_query(None, 10, 2, NOW),
        vec![event(&stamp(30), "c"), event(&stamp(10), "a"), event(&stamp(20), "b")],
        vec![segment("c", &stamp(30)), segment("a", &stamp(10)), segment("b", &stamp(20))],
    );
    let apps: Vec<&str> =
        result.events.iter().map(|event| event.app_name.as_deref().unwrap()).collect();
    assert_eq!(apps, vec!["a", "b"]);
    let ids: Vec<&str> = result.segments.iter().map(|segment| segment.id.as_str()).collect();
    assert_eq!(ids, vec!["a", "b"]);
}

#[test]
fn what_was_just_stored_is_found() {
    let now = current_time();
    let result = query_screen_memory(
        screen_memory_query(None, Some(5), None),
        vec![event(&write_stamp(now), "new"), event(&write_stamp(minutes_before(now, 6)), "old")],
        vec![segment("s", &write_stamp(minutes_before(now, 4)))],
    );
    assert_eq!(result.events.len(), 1);
    assert_eq!(result.events[0].app_name.as_deref(), Some("new"));
    assert_eq!(result.segments.len(), 1);
}

#[test]
fn a_longer_range_finds_more() {
    let make = || {
        vec![
            event("2023-12-31T23:59:30+00:00", "a"),
            event("2023-12-31T23:30:00+00:00", "b"),
            event("2023-12-31T22:30:00+00:00", "c"),
        ]
    };
    let found = |minutes: u64| {
        query_screen_memory(plan_query(None, minutes, 10, NOW), make(), Vec::new()).events.len()
    };
    assert_eq!((found(1), found(40), found(100)), (1, 2, 3));
}

#[test]
fn a_search_ignores_case_and_outer_white_space() {
    let find = |query: Option<&str>| {
        let result = query_screen_memory(
            plan_query(query.map(str::to_string), 10, 5, NOW),
            vec![event("2023-12-31T23:55:00+00:00", "MAIL"), event("x", "Editor")],
            vec![segment("Mail-1", "2023-12-31T23:51:00+00:00"), segment("b", "x")],
        );
        format!("{:?} {:?}", result.events, result.segments)
    };
    assert_eq!(find(Some("mail")), find(Some("  MaIL\t")));
    assert_ne!(find(Some("mail")), find(None));
    assert_eq!(find(Some(" \n")), find(None));
}
