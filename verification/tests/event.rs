use screen_memory::clock::UtcTime;
use screen_memory::event::{
    active_window_event, decoded_events, is_kept_and_found, is_wanted, recent_events, sample_active_window,
    searchable_text, ActiveWindowContext, ScreenMemoryEvent,
};

fn event(captured_at: &str, app: Option<&str>, title: Option<&str>) -> ScreenMemoryEvent {
    ScreenMemoryEvent {
        captured_at: captured_at.to_string(),
        app_name: app.map(str::to_string),
        window_title: title.map(str::to_string),
        bundle_id: None,
        source: "test".to_string(),
    }
}

fn context() -> ActiveWindowContext {
    ActiveWindowContext {
        app_name: Some("Editor".to_string()),
        window_title: None,
        bundle_id: Some("com.example.editor".to_string()),
        source: "accessibility".to_string(),
    }
}

/// 2024-01-01T00:00:00Z
const CUTOFF: UtcTime = UtcTime { secs: 1_704_067_200, nanos: 0 };

#[test]
fn an_event_tells_of_the_window() {
    let event = active_window_event("now".to_string(), Some(context()));
    assert_eq!(event.captured_at, "now");
    assert_eq!(event.app_name.as_deref(), Some("Editor"));
    assert_eq!(event.window_title, None);
    assert_eq!(event.bundle_id.as_deref(), Some("com.example.editor"));
    assert_eq!(event.source, "accessibility");
}

#[test]
fn an_event_says_where_nothing_can_be_told() {
    let event = active_window_event("now".to_string(), None);
    assert_eq!((event.app_name, event.window_title, event.bundle_id), (None, None, None));
    assert_eq!(event.source, "unsupported");
}

#[test]
fn a_sample_is_dated_now() {
    let before = chrono::Utc::now();
    let event = sample_active_window(Some(context()));
    let after = chrono::Utc::now();
    let at = chrono::DateTime::parse_from_rfc3339(&event.captured_at).unwrap();
    assert!(before <= at && at <= after);
    assert_eq!(event.source, "accessibility");
    assert_eq!(sample_active_window(None).source, "unsupported");
}

#[test]
fn the_searched_text_joins_the_fields() {
    let mut shown = event("now", Some("App"), Some("Title"));
    assert_eq!(searchable_text(&shown), "App Title ");
    shown.bundle_id = Some("id".to_string());
    assert_eq!(searchable_text(&shown), "App Title id");
    assert_eq!(searchable_text(&event("now", None, None)), "  ");
}

#[test]
fn the_search_looks_at_lower_case() {
    let shown = event("2024-01-01T00:00:00Z", Some("STRASSE"), Some("\u{c4}pfel"));
    assert!(is_wanted(&shown, CUTOFF, Some("strasse")));
    assert!(is_wanted(&shown, CUTOFF, Some("e \u{e4}pf")));
    assert!(!is_wanted(&shown, CUTOFF, Some("STRASSE")));
    assert!(!is_wanted(&shown, CUTOFF, Some("pear")));
    assert!(is_wanted(&shown, CUTOFF, None));
    assert!(is_wanted(&shown, CUTOFF, Some("")));
}

#[test]
fn an_old_event_is_not_wanted() {
    assert!(!is_wanted(&event("2023-12-31T23:59:59Z", Some("x"), None), CUTOFF, None));
    assert!(!is_wanted(&event("2023-12-31T23:59:59Z", Some("x"), None), CUTOFF, Some("x")));
    assert!(is_wanted(&event("unknown", Some("x"), None), CUTOFF, Some("x")));
}

#[test]
fn age_and_text_both_count() {
    let late = Some(UtcTime { secs: CUTOFF.secs, nanos: 1 });
    let early = Some(UtcTime { secs: CUTOFF.secs - 1, nanos: 0 });
    assert!(is_kept_and_found(late, CUTOFF, "some text", "me t"));
    assert!(!is_kept_and_found(late, CUTOFF, "some text", "met"));
    assert!(!is_kept_and_found(early, CUTOFF, "some text", "me t"));
    assert!(is_kept_and_found(None, CUTOFF, "some text", ""));
}

#[test]
fn recent_events_come_newest_first() {
    let events = vec![
        event("2024-01-01T00:00:01+00:00", Some("a"), None),
        event("2023-01-01T00:00:00+00:00", Some("b"), None),
        event("2024-01-01T00:00:03+00:00", Some("c"), None),
        event("2024-01-01T00:00:02+00:00", Some("d"), None),
        event("2024-01-01T00:00:03+00:00", Some("e"), None),
    ];
    let found = recent_events(events, CUTOFF, None, 3);
    let names: Vec<&str> = found.iter().map(|e| e.app_name.as_deref().unwrap()).collect();
    assert_eq!(names, vec!["c", "e", "d"]);
}

#[test]
fn recent_events_are_searched() {
    let events = vec![
        event("2024-01-01T00:00:01+00:00", Some("Mail"), Some("Inbox")),
        event("2024-01-01T00:00:02+00:00", Some("Editor"), Some("mail.rs")),
        event("2024-01-01T00:00:03+00:00", Some("Browser"), None),
    ];
    let found = recent_events(events, CUTOFF, Some("mail"), 10);
    assert_eq!(found.len(), 2);
    assert_eq!(found[0].app_name.as_deref(), Some("Editor"));
    assert_eq!(found[1].app_name.as_deref(), Some("Mail"));
}

#[test]
fn a_limit_of_none_gives_nothing() {
    let events = vec![event("2024-01-01T00:00:01+00:00", Some("a"), None)];
    assert!(recent_events(events, CUTOFF, None, 0).is_empty());
    assert!(recent_events(Vec::new(), CUTOFF, None, 5).is_empty());
}

#[test]
fn lines_that_cannot_be_decoded_are_passed_over() {
    let make = |name: &str| event("2024-01-01T00:00:01+00:00", Some(name), None);
    let lines = vec![None, Some(make("a")), None, None, Some(make("b")), None];
    let names: Vec<Option<String>> =
        decoded_events(lines.clone()).into_iter().map(|event| event.app_name).collect();
    assert_eq!(names, vec![Some("a".to_string()), Some("b".to_string())]);
    let readable: Vec<Option<ScreenMemoryEvent>> =
        lines.iter().filter(|line| line.is_some()).cloned().collect();
    let found = recent_events(decoded_events(lines), CUTOFF, None, 9);
    let same = recent_events(decoded_events(readable), CUTOFF, None, 9);
    assert_eq!(format!("{found:?}"), format!("{same:?}"));
    assert!(decoded_events(vec![None]).is_empty());
}

#[test]
fn an_appended_event_is_read_last() {
    let mut lines = vec![Some(event("1", Some("a"), None)), None];
    lines.push(Some(event("2", Some("b"), None)));
    let events = decoded_events(lines);
    assert_eq!(events.len(), 2);
    assert_eq!(events[1].app_name.as_deref(), Some("b"));
}
