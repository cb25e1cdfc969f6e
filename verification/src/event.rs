//! Samples of the active window, and the search through them.

use crate::clock::{is_kept, now_iso, parse_stamp, stamp_time, survives, UtcTime};
use crate::order::{
    first_records, keep_where, newest_first_of, reversed, sort_newest_first,
    sorting_orders_by_date, Dated,
};
use crate::text::{
    contains_text, found_text_stands_there, has_text, lowercase, text_is_found_where_it_stands,
    text_le, to_lowercase,
};
use vstd::prelude::*;
use vstd::string::*;

verus! {

/// What was on screen at one moment.
#[derive(Clone, Debug)]
pub struct ScreenMemoryEvent {
    pub captured_at: String,
    pub app_name: Option<String>,
    pub window_title: Option<String>,
    pub bundle_id: Option<String>,
    pub source: String,
}

impl Dated for ScreenMemoryEvent {
    open spec fn date(&self) -> Seq<char> {
        self.captured_at@
    }

    fn date_text(&self) -> (r: &str) {
        self.captured_at.as_str()
    }
}

/// What the system tells of the active window.
pub struct ActiveWindowContext {
    pub app_name: Option<String>,
    pub window_title: Option<String>,
    pub bundle_id: Option<String>,
    pub source: String,
}

/// `event` tells of `context`, or, where the system tells nothing, that it is unsupported.
pub open spec fn tells_of(event: ScreenMemoryEvent, context: Option<ActiveWindowContext>) -> bool {
    match context {
        Some(context) => {
            &&& event.app_name == context.app_name
            &&& event.window_title == context.window_title
            &&& event.bundle_id == context.bundle_id
            &&& event.source == context.source
        },
        None => {
            &&& event.app_name is None
            &&& event.window_title is None
            &&& event.bundle_id is None
            &&& event.source@ == "unsupported"@
        },
    }
}

/// The event for what the system tells of the active window at `captured_at`. Where it cannot tell
/// anything, the event says so.
pub fn active_window_event(captured_at: String, context: Option<ActiveWindowContext>) -> (r:
    ScreenMemoryEvent)
    ensures
        r.captured_at == captured_at,
        tells_of(r, context),
        context matches Some(told) ==> r.app_name == told.app_name,
        context matches Some(told) ==> r.window_title == told.window_title,
        context matches Some(told) ==> r.bundle_id == told.bundle_id,
        context matches Some(told) ==> r.source == told.source,
        context is None ==> r.app_name is None && r.window_title is None && r.bundle_id is None,
        context is None ==> r.source@ == "unsupported"@,
{
    match context {
        Some(context) => ScreenMemoryEvent {
            captured_at,
            app_name: context.app_name,
            window_title: context.window_title,
            bundle_id: context.bundle_id,
            source: context.source,
        },
        None => ScreenMemoryEvent {
            captured_at,
            app_name: None,
            window_title: None,
            bundle_id: None,
            source: "unsupported".to_string(),
        },
    }
}

/// The event for what the system tells of the active window now.
pub fn sample_active_window(context: Option<ActiveWindowContext>) -> (r: ScreenMemoryEvent)
    ensures
        tells_of(r, context),
        context matches Some(told) ==> r.app_name == told.app_name,
        context matches Some(told) ==> r.window_title == told.window_title,
        context matches Some(told) ==> r.bundle_id == told.bundle_id,
        context matches Some(told) ==> r.source == told.source,
        context is None ==> r.app_name is None && r.window_title is None && r.bundle_id is None,
        context is None ==> r.source@ == "unsupported"@,
        exists|now: UtcTime|
            now.shown_by_clock() && now.is_clock_time() && r.captured_at@ == #[trigger] now.stamp() && (
            now.has_four_digit_year() ==> stamp_time(r.captured_at@) == Some(now)),
{
    active_window_event(now_iso(), context)
}

/// Optional text, or no text.
pub open spec fn or_empty(text: Option<String>) -> Seq<char> {
    match text {
        Some(t) => t@,
        None => Seq::empty(),
    }
}

/// The text of an event that a search looks through, before it is put in lower case.
pub open spec fn event_text(event: ScreenMemoryEvent) -> Seq<char> {
    or_empty(event.app_name) + " "@ + or_empty(event.window_title) + " "@ + or_empty(
        event.bundle_id,
    )
}

/// A search for `query`, itself in lower case, finds the event.
pub open spec fn event_has(event: ScreenMemoryEvent, query: Option<Seq<char>>) -> bool {
    match query {
        Some(query) => contains_text(lowercase(event_text(event)), query),
        None => true,
    }
}

/// The event is recent enough and found.
pub open spec fn event_is_wanted(
    event: ScreenMemoryEvent,
    cutoff: UtcTime,
    query: Option<Seq<char>>,
) -> bool {
    survives(stamp_time(event.captured_at@), cutoff) && event_has(event, query)
}

/// Picks the events that are recent enough and found.
pub open spec fn wanted_events(cutoff: UtcTime, query: Option<Seq<char>>) -> spec_fn(
    ScreenMemoryEvent,
) -> bool {
    |event: ScreenMemoryEvent| event_is_wanted(event, cutoff, query)
}

fn append_optional(out: &mut String, text: &Option<String>)
    ensures
        final(out)@ == old(out)@ + or_empty(*text),
{
    match text {
        Some(t) => {
            out.append(t.as_str());
        },
        None => {
            assert(out@ =~= old(out)@ + Seq::<char>::empty());
        },
    }
}

/// The text of an event that a search looks through, before it is put in lower case.
pub fn searchable_text(event: &ScreenMemoryEvent) -> (r: String)
    ensures
        r@ == event_text(*event),
        r@ == (match event.app_name {
            Some(name) => name@,
            None => Seq::<char>::empty(),
        }) + " "@ + (match event.window_title {
            Some(title) => title@,
            None => Seq::<char>::empty(),
        }) + " "@ + (match event.bundle_id {
            Some(id) => id@,
            None => Seq::<char>::empty(),
        }),
{
    let mut r = String::new();
    append_optional(&mut r, &event.app_name);
    r.append(" ");
    append_optional(&mut r, &event.window_title);
    r.append(" ");
    append_optional(&mut r, &event.bundle_id);
    assert(r@ =~= event_text(*event));
    r
}

/// Whether what is dated `time` is recent enough and its text, in lower case, is found by `query`,
/// which is in lower case too.
pub fn is_kept_and_found(
    time: Option<UtcTime>,
    cutoff: UtcTime,
    lowercase_text: &str,
    query: &str,
) -> (r: bool)
    ensures
        r == (survives(time, cutoff) && contains_text(lowercase_text@, query@)),
{
    is_kept(time, cutoff) && has_text(lowercase_text, query)
}

/// Whether the event is recent enough and found. `query` is in lower case.
pub fn is_wanted(event: &ScreenMemoryEvent, cutoff: UtcTime, query: Option<&str>) -> (r: bool)
    ensures
        r == event_is_wanted(*event, cutoff, query_view(query)),
        query is None ==> r == survives(stamp_time(event.captured_at@), cutoff),
        query matches Some(text) ==> r == (survives(stamp_time(event.captured_at@), cutoff)
            && contains_text(
            lowercase(
                (match event.app_name {
                    Some(name) => name@,
                    None => Seq::<char>::empty(),
                }) + " "@ + (match event.window_title {
                    Some(title) => title@,
                    None => Seq::<char>::empty(),
                }) + " "@ + (match event.bundle_id {
                    Some(id) => id@,
                    None => Seq::<char>::empty(),
                }),
            ),
            text@,
        )),
{
    let time = parse_stamp(event.captured_at.as_str());
    match query {
        Some(query) => is_kept_and_found(
            time,
            cutoff,
            to_lowercase(searchable_text(event).as_str()).as_str(),
            query,
        ),
        None => is_kept(time, cutoff),
    }
}

/// The views of an optional text slice.
pub open spec fn query_view(query: Option<&str>) -> Option<Seq<char>> {
    match query {
        Some(q) => Some(q@),
        None => None,
    }
}

/// The newest of the recorded events that are recent enough and found, `limit` of them at most,
/// newest first. `query` is in lower case.
pub fn recent_events(
    events: Vec<ScreenMemoryEvent>,
    cutoff: UtcTime,
    query: Option<&str>,
    limit: usize,
) -> (r: Vec<ScreenMemoryEvent>)
    ensures
        r@ == first_records(
            newest_first_of(events@.filter(wanted_events(cutoff, query_view(query)))),
            limit as int,
        ),
        r@.len() <= limit,
        forall|i: int, j: int|
            0 <= i <= j < r@.len() ==> text_le(
                (#[trigger] r@[j]).captured_at@,
                (#[trigger] r@[i]).captured_at@,
            ),
        forall|i: int|
            0 <= i < r@.len() ==> events@.contains(#[trigger] r@[i]) && event_is_wanted(
                r@[i],
                cutoff,
                query_view(query),
            ),
        forall|k: int|
            0 <= k < events@.len() && event_is_wanted(
                #[trigger] events@[k],
                cutoff,
                query_view(query),
            ) && !r@.contains(events@[k]) ==> r@.len() == limit && forall|i: int|
                0 <= i < r@.len() ==> text_le(
                    events@[k].captured_at@,
                    (#[trigger] r@[i]).captured_at@,
                ),
{
    let keep = |event: &ScreenMemoryEvent| -> (kept: bool)
        ensures
            kept == event_is_wanted(*event, cutoff, query_view(query)),
        { is_wanted(event, cutoff, query) };
    let wanted = keep_where(events, keep, Ghost(wanted_events(cutoff, query_view(query))));
    let ghost picked = wanted@;
    let mut sorted = sort_newest_first(wanted);
    let ghost all = sorted@;
    sorted.truncate(limit);
    proof {
        let pick = wanted_events(cutoff, query_view(query));
        sorting_orders_by_date(picked);
        assert forall|i: int, j: int| 0 <= i <= j < sorted@.len() implies text_le(
            (#[trigger] sorted@[j]).captured_at@,
            (#[trigger] sorted@[i]).captured_at@,
        ) by {
            assert(text_le(all[j].date(), all[i].date()));
        }
        assert forall|i: int| 0 <= i < sorted@.len() implies events@.contains(
            #[trigger] sorted@[i],
        ) && event_is_wanted(sorted@[i], cutoff, query_view(query)) by {
            assert(all.contains(all[i]));
            assert(picked.contains(all[i]));
            let k = choose|k: int| 0 <= k < picked.len() && picked[k] == all[i];
            events@.lemma_filter_pred(pick, k);
            events@.lemma_filter_contains_rev(pick, all[i]);
        }
        assert forall|k: int|
            0 <= k < events@.len() && event_is_wanted(
                #[trigger] events@[k],
                cutoff,
                query_view(query),
            ) && !sorted@.contains(events@[k]) implies sorted@.len() == limit && forall|i: int|
            0 <= i < sorted@.len() ==> text_le(
                events@[k].captured_at@,
                (#[trigger] sorted@[i]).captured_at@,
            ) by {
            assert(pick(events@[k]));
            events@.lemma_filter_contains(pick, k);
            assert(picked.contains(events@[k]));
            assert(all.contains(events@[k]));
            let n = choose|n: int| 0 <= n < all.len() && all[n] == events@[k];
            if n < sorted@.len() {
                assert(sorted@[n] == events@[k]);
            }
            assert forall|i: int| 0 <= i < sorted@.len() implies text_le(
                events@[k].captured_at@,
                (#[trigger] sorted@[i]).captured_at@,
            ) by {
                assert(text_le(all[n].date(), all[i].date()));
            }
        }
    }
    sorted
}

/// The events of the lines that could be decoded, in order.
pub open spec fn decoded(lines: Seq<Option<ScreenMemoryEvent>>) -> Seq<ScreenMemoryEvent>
    decreases lines.len(),
{
    if lines.len() == 0 {
        Seq::empty()
    } else {
        match lines.last() {
            Some(event) => decoded(lines.drop_last()).push(event),
            None => decoded(lines.drop_last()),
        }
    }
}

/// The events of the lines that could be decoded, in order. The other lines are passed over.
pub fn decoded_events(lines: Vec<Option<ScreenMemoryEvent>>) -> (r: Vec<ScreenMemoryEvent>)
    ensures
        r@ == decoded(lines@),
{
    let ghost all = lines@;
    let mut rest = reversed(lines);
    let mut events: Vec<ScreenMemoryEvent> = Vec::new();
    let ghost mut done: int = 0;
    while rest.len() > 0
        invariant
            0 <= done <= all.len(),
            rest@ == all.skip(done).reverse(),
            events@ == decoded(all.take(done)),
        decreases rest.len(),
    {
        match rest.pop() {
            Some(line) => {
                assert(line == all[done]);
                assert(all.take(done + 1).drop_last() =~= all.take(done));
                assert(all.skip(done + 1).reverse() =~= all.skip(done).reverse().drop_last());
                match line {
                    Some(event) => {
                        events.push(event);
                    },
                    None => {},
                }
                proof {
                    done = done + 1;
                }
            },
            None => {},
        }
    }
    assert(all.take(done) =~= all);
    events
}

/// An event that is appended to the log is read from it, after all earlier ones.
pub proof fn appended_event_is_read(
    lines: Seq<Option<ScreenMemoryEvent>>,
    event: ScreenMemoryEvent,
)
    ensures
        decoded(lines.push(Some(event))) == decoded(lines).push(event),
{
    assert(lines.push(Some(event)).drop_last() =~= lines);
}

proof fn decoded_parts(a: Seq<Option<ScreenMemoryEvent>>, b: Seq<Option<ScreenMemoryEvent>>)
    ensures
        decoded(a + b) == decoded(a) + decoded(b),
    decreases b.len(),
{
    if b.len() == 0 {
        assert(a + b =~= a);
        assert(decoded(a) + decoded(b) =~= decoded(a));
    } else {
        assert((a + b).drop_last() =~= a + b.drop_last());
        decoded_parts(a, b.drop_last());
        if let Some(event) = b.last() {
            assert((decoded(a) + decoded(b.drop_last())).push(event) =~= decoded(a) + decoded(
                b.drop_last(),
            ).push(event));
        }
    }
}

/// A line that cannot be decoded changes no search: without it the same events are read and found.
pub proof fn undecoded_line_changes_no_search(
    lines: Seq<Option<ScreenMemoryEvent>>,
    i: int,
    cutoff: UtcTime,
    query: Option<Seq<char>>,
    limit: int,
)
    requires
        0 <= i < lines.len(),
        lines[i] is None,
    ensures
        decoded(lines) == decoded(lines.remove(i)),
        first_records(
            newest_first_of(decoded(lines).filter(wanted_events(cutoff, query))),
            limit,
        ) == first_records(
            newest_first_of(decoded(lines.remove(i)).filter(wanted_events(cutoff, query))),
            limit,
        ),
{
    let (front, back) = (lines.take(i), lines.skip(i + 1));
    let one = seq![lines[i]];
    assert(lines.remove(i) =~= front + back);
    assert(lines =~= front + one + back);
    decoded_parts(front, back);
    decoded_parts(front + one, back);
    decoded_parts(front, one);
    assert(decoded(one) == Seq::<ScreenMemoryEvent>::empty()) by {
        reveal_with_fuel(decoded, 2);
    }
    assert(decoded(front) + decoded(one) =~= decoded(front));
}

/// An event is wanted when it is recent enough and the query occurs in the lower case of its app
/// name, window title and bundle id, joined by single spaces; without a query, when it is recent
/// enough. What is missing counts as empty text.
pub proof fn event_is_found_by_app_title_and_bundle(
    event: ScreenMemoryEvent,
    cutoff: UtcTime,
    query: Seq<char>,
    app: Seq<char>,
    title: Seq<char>,
    bundle: Seq<char>,
)
    requires
        app == (match event.app_name {
            Some(name) => name@,
            None => Seq::<char>::empty(),
        }),
        title == (match event.window_title {
            Some(title) => title@,
            None => Seq::<char>::empty(),
        }),
        bundle == (match event.bundle_id {
            Some(id) => id@,
            None => Seq::<char>::empty(),
        }),
    ensures
        event_text(event) == app + " "@ + title + " "@ + bundle,
        event_is_wanted(event, cutoff, Some(query)) <==> survives(
            stamp_time(event.captured_at@),
            cutoff,
        ) && contains_text(lowercase(app + " "@ + title + " "@ + bundle), query),
        event_is_wanted(event, cutoff, None) <==> survives(stamp_time(event.captured_at@), cutoff),
        wanted_events(cutoff, Some(query))(event) == event_is_wanted(event, cutoff, Some(query)),
        wanted_events(cutoff, None)(event) == event_is_wanted(event, cutoff, None),
        event_has(event, Some(query)) == contains_text(
            lowercase(app + " "@ + title + " "@ + bundle),
            query,
        ),
        event_has(event, None),
{
}

/// A recent event that a query finds is found by every piece of that query.
pub proof fn shorter_query_finds_more(
    event: ScreenMemoryEvent,
    cutoff: UtcTime,
    before: Seq<char>,
    query: Seq<char>,
    behind: Seq<char>,
)
    requires
        event_is_wanted(event, cutoff, Some(before + query + behind)),
    ensures
        event_is_wanted(event, cutoff, Some(query)),
        event_is_wanted(event, cutoff, None),
{
    let text = lowercase(event_text(event));
    let whole = before + query + behind;
    let at = found_text_stands_there(text, whole);
    let (front, back) = (text.take(at), text.skip(at + whole.len()));
    text_is_found_where_it_stands(front + before, query, behind + back);
    assert(text =~= (front + before) + query + (behind + back));
}

/// An event tells of the active window field by field, and where nothing is told it says so.
pub proof fn event_tells_every_field(
    event: ScreenMemoryEvent,
    context: Option<ActiveWindowContext>,
)
    requires
        tells_of(event, context),
    ensures
        context matches Some(told) ==> event.app_name == told.app_name && event.window_title
            == told.window_title && event.bundle_id == told.bundle_id && event.source
            == told.source,
        context is None ==> event.app_name is None && event.window_title is None
            && event.bundle_id is None && event.source@ == "unsupported"@,
{
}

/// A log without lines has no events, and the events of two logs put together are those of the one
/// and then those of the other.
pub proof fn log_is_read_line_by_line(
    a: Seq<Option<ScreenMemoryEvent>>,
    b: Seq<Option<ScreenMemoryEvent>>,
    line: Option<ScreenMemoryEvent>,
)
    ensures
        decoded(Seq::empty()) == Seq::<ScreenMemoryEvent>::empty(),
        decoded(a + b) == decoded(a) + decoded(b),
        decoded(a.push(line)) == (match line {
            Some(event) => decoded(a).push(event),
            None => decoded(a),
        }),
{
    decoded_parts(a, b);
    assert(a.push(line).drop_last() =~= a);
}

} // verus!
