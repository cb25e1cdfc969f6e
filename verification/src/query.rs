//! Searching events and segments.

use crate::catalog::recent_segments;
use crate::clock::{
    current_time, minutes_before, stamp_is_kept, stamp_time, survives, UtcTime,
};
use crate::config::{clamp_u64, clamped};
use crate::event::{event_has, event_is_wanted, query_view, recent_events, wanted_events, ScreenMemoryEvent};
use crate::order::{
    first_records, keep_where, newest_first_of, newest_first_of_is_order,
    picking_and_sorting_commute, same_by_date_holds_same_records, same_by_date_is_permutation,
    sorting_orders_by_date, Dated,
};
use crate::segment::ScreenMemorySegmentMetadata;
use crate::text::{
    contains_text, has_text, lowercase, option_text, text_le, to_lowercase, trim, trimmed,
};
use vstd::prelude::*;

verus! {

/// The minutes that a search covers where none are given.
pub const DEFAULT_QUERY_MINUTES: u64 = 30;

/// The results of each kind that a search gives where no limit is given.
pub const DEFAULT_QUERY_LIMIT: usize = 40;

/// The most minutes that a search or an export covers.
pub const MAX_RANGE_MINUTES: u64 = 24 * 30 * 60;

/// The most results of each kind that a search gives.
pub const MAX_QUERY_LIMIT: usize = 500;

/// What a search found.
#[derive(Clone, Debug)]
pub struct ScreenMemoryQueryResult {
    pub query: Option<String>,
    pub minutes: u64,
    pub events: Vec<ScreenMemoryEvent>,
    pub segments: Vec<ScreenMemorySegmentMetadata>,
}

/// A search that is ready to be carried out.
pub struct QueryPlan {
    /// What is searched for, as the user wrote it.
    pub query: Option<String>,
    /// What is searched for, in lower case.
    pub query_lc: Option<String>,
    pub minutes: u64,
    pub limit: usize,
    /// What is older is not looked at.
    pub cutoff: UtcTime,
}

/// The minutes that a search or an export covers when `minutes` are asked for.
pub open spec fn range_minutes(minutes: int) -> int {
    clamped(minutes, 1, MAX_RANGE_MINUTES as int)
}

/// The text that the user searches for by `query`, without white space at its ends.
pub open spec fn searched(query: Option<Seq<char>>) -> Seq<char> {
    match query {
        Some(text) => trimmed(text),
        None => Seq::empty(),
    }
}

/// What is searched for when the user writes `query`: nothing, where it is blank.
pub open spec fn query_text(query: Option<Seq<char>>) -> Option<Seq<char>> {
    if searched(query).len() > 0 {
        Some(searched(query))
    } else {
        None
    }
}

/// Optional text in lower case.
pub open spec fn optional_lowercase(text: Option<Seq<char>>) -> Option<Seq<char>> {
    match text {
        Some(text) => Some(lowercase(text)),
        None => None,
    }
}

/// `plan` is the search for `query` at `now`.
pub open spec fn is_plan_for(
    plan: QueryPlan,
    query: Option<Seq<char>>,
    minutes: int,
    limit: int,
    now: UtcTime,
) -> bool {
    &&& option_text(plan.query) == query_text(query)
    &&& option_text(plan.query_lc) == optional_lowercase(query_text(query))
    &&& lowercase(searched(query)).len() == 0 <==> searched(query).len() == 0
    &&& plan.minutes == range_minutes(minutes)
    &&& plan.limit == clamped(limit, 1, MAX_QUERY_LIMIT as int)
    &&& plan.cutoff == now.minus_secs(range_minutes(minutes) * 60)
}

/// The search for `query` over the `minutes` before `now`.
pub fn plan_query(query: Option<String>, minutes: u64, limit: usize, now: UtcTime) -> (r: QueryPlan)
    requires
        now.is_clock_time(),
    ensures
        is_plan_for(r, option_text(query), minutes as int, limit as int, now),
        (minutes < 1 ==> r.minutes == 1) && (minutes > 43_200 ==> r.minutes == 43_200) && (1
            <= minutes <= 43_200 ==> r.minutes == minutes),
        (limit < 1 ==> r.limit == 1) && (limit > 500 ==> r.limit == 500) && (1 <= limit <= 500
            ==> r.limit == limit),
        r.cutoff.secs == now.secs - r.minutes * 60,
        r.cutoff.nanos == now.nanos,
        r.query is Some <==> (query matches Some(text) && trimmed(text@).len() > 0),
        r.query matches Some(kept) ==> (query matches Some(text) && kept@ == trimmed(text@)),
        r.query_lc is Some <==> r.query is Some,
        r.query_lc matches Some(lower) ==> (r.query matches Some(kept) && lower@ == lowercase(
            kept@,
        )),
{
    let minutes: u64 = clamp_u64(minutes, 1, MAX_RANGE_MINUTES);
    let limit: usize = if limit < 1 {
        1
    } else if limit > MAX_QUERY_LIMIT {
        MAX_QUERY_LIMIT
    } else {
        limit
    };
    let cutoff = minutes_before(now, minutes);
    let text = match query {
        Some(text) => trim(text.as_str()),
        None => String::new(),
    };
    let text_lc = to_lowercase(text.as_str());
    let (query, query_lc) = if text.as_str().is_empty() {
        (None, None)
    } else {
        (Some(text), Some(text_lc))
    };
    QueryPlan { query, query_lc, minutes, limit, cutoff }
}

/// The search that the user asks for, to be carried out now.
pub fn screen_memory_query(
    query: Option<String>,
    minutes: Option<u64>,
    limit: Option<usize>,
) -> (r: QueryPlan)
    ensures
        exists|now: UtcTime|
            #[trigger] now.shown_by_clock() && now.is_clock_time() && is_plan_for(
                r,
                option_text(query),
                (match minutes {
                    Some(minutes) => minutes,
                    None => DEFAULT_QUERY_MINUTES,
                }) as int,
                (match limit {
                    Some(limit) => limit,
                    None => DEFAULT_QUERY_LIMIT,
                }) as int,
                now,
            ) && r.cutoff.secs == now.secs - r.minutes * 60 && r.cutoff.nanos == now.nanos,
        minutes is None ==> r.minutes == 30,
        minutes matches Some(asked) ==> 1 <= r.minutes <= 43_200 && (1 <= asked <= 43_200
            ==> r.minutes == asked) && (asked < 1 ==> r.minutes == 1) && (asked > 43_200
            ==> r.minutes == 43_200),
        limit is None ==> r.limit == 40,
        limit matches Some(asked) ==> 1 <= r.limit <= 500 && (1 <= asked <= 500 ==> r.limit
            == asked) && (asked < 1 ==> r.limit == 1) && (asked > 500 ==> r.limit == 500),
        r.query is Some <==> (query matches Some(text) && trimmed(text@).len() > 0),
        r.query matches Some(kept) ==> (query matches Some(text) && kept@ == trimmed(text@)),
        r.query_lc is Some <==> r.query is Some,
        r.query_lc matches Some(lower) ==> (r.query matches Some(kept) && lower@ == lowercase(
            kept@,
        )),
{
    let minutes: u64 = match minutes {
        Some(minutes) => minutes,
        None => DEFAULT_QUERY_MINUTES,
    };
    let limit: usize = match limit {
        Some(limit) => limit,
        None => DEFAULT_QUERY_LIMIT,
    };
    let now = current_time();
    assert(now.shown_by_clock());
    plan_query(query, minutes, limit, now)
}

/// A search for `query`, itself in lower case, finds the segment by its id, its file name or where
/// its recording lies.
pub open spec fn segment_has(
    segment: ScreenMemorySegmentMetadata,
    query: Option<Seq<char>>,
) -> bool {
    match query {
        Some(query) => contains_text(lowercase(segment.id@), query) || contains_text(
            lowercase(segment.file_name@),
            query,
        ) || contains_text(lowercase(segment.path@), query),
        None => true,
    }
}

/// Picks the segments that ended recently enough.
pub open spec fn recent_enough(cutoff: UtcTime) -> spec_fn(ScreenMemorySegmentMetadata) -> bool {
    |segment: ScreenMemorySegmentMetadata| survives(stamp_time(segment.ended_at@), cutoff)
}

/// Picks the segments that ended recently enough and are found.
pub open spec fn wanted_segments(cutoff: UtcTime, query: Option<Seq<char>>) -> spec_fn(
    ScreenMemorySegmentMetadata,
) -> bool {
    |segment: ScreenMemorySegmentMetadata|
        survives(stamp_time(segment.ended_at@), cutoff) && segment_has(segment, query)
}

/// Whether a search finds the segment. `query` is in lower case.
pub fn segment_matches(segment: &ScreenMemorySegmentMetadata, query: Option<&str>) -> (r: bool)
    ensures
        r == segment_has(*segment, query_view(query)),
        query is None ==> r,
        query matches Some(text) ==> r == (contains_text(lowercase(segment.id@), text@)
            || contains_text(lowercase(segment.file_name@), text@) || contains_text(
            lowercase(segment.path@),
            text@,
        )),
{
    match query {
        Some(query) => has_text(to_lowercase(segment.id.as_str()).as_str(), query) || has_text(
            to_lowercase(segment.file_name.as_str()).as_str(),
            query,
        ) || has_text(to_lowercase(segment.path.as_str()).as_str(), query),
        None => true,
    }
}

/// Carries out a search through the recorded events and the stored segments.
pub fn query_screen_memory(
    plan: QueryPlan,
    events: Vec<ScreenMemoryEvent>,
    found: Vec<ScreenMemorySegmentMetadata>,
) -> (r: ScreenMemoryQueryResult)
    ensures
        r.query == plan.query,
        r.minutes == plan.minutes,
        r.events@ == first_records(
            newest_first_of(
                events@.filter(wanted_events(plan.cutoff, option_text(plan.query_lc))),
            ),
            plan.limit as int,
        ),
        r.segments@ == first_records(
            newest_first_of(found@).filter(
                wanted_segments(plan.cutoff, option_text(plan.query_lc)),
            ),
            plan.limit as int,
        ),
        r.events@.len() <= plan.limit,
        forall|i: int, j: int|
            0 <= i <= j < r.events@.len() ==> text_le(
                (#[trigger] r.events@[j]).captured_at@,
                (#[trigger] r.events@[i]).captured_at@,
            ),
        forall|i: int|
            0 <= i < r.events@.len() ==> events@.contains(#[trigger] r.events@[i])
                && event_is_wanted(r.events@[i], plan.cutoff, option_text(plan.query_lc)),
        forall|k: int|
            0 <= k < events@.len() && event_is_wanted(
                #[trigger] events@[k],
                plan.cutoff,
                option_text(plan.query_lc),
            ) && !r.events@.contains(events@[k]) ==> r.events@.len() == plan.limit && forall|i: int|
                0 <= i < r.events@.len() ==> text_le(
                    events@[k].captured_at@,
                    (#[trigger] r.events@[i]).captured_at@,
                ),
        r.segments@.len() <= plan.limit,
        forall|i: int, j: int|
            0 <= i <= j < r.segments@.len() ==> text_le(
                (#[trigger] r.segments@[j]).ended_at@,
                (#[trigger] r.segments@[i]).ended_at@,
            ),
        forall|i: int|
            0 <= i < r.segments@.len() ==> found@.contains(#[trigger] r.segments@[i]) && survives(
                stamp_time(r.segments@[i].ended_at@),
                plan.cutoff,
            ) && segment_has(r.segments@[i], option_text(plan.query_lc)),
        forall|k: int|
            0 <= k < found@.len() && survives(
                stamp_time((#[trigger] found@[k]).ended_at@),
                plan.cutoff,
            ) && segment_has(found@[k], option_text(plan.query_lc)) && !r.segments@.contains(
                found@[k],
            ) ==> r.segments@.len() == plan.limit && forall|i: int|
                0 <= i < r.segments@.len() ==> text_le(
                    found@[k].ended_at@,
                    (#[trigger] r.segments@[i]).ended_at@,
                ),
{
    let query_lc = plan.query_lc;
    let cutoff = plan.cutoff;
    let needle = match &query_lc {
        Some(text) => Some(text.as_str()),
        None => None,
    };
    let events = recent_events(events, cutoff, needle, plan.limit);
    let keep = |segment: &ScreenMemorySegmentMetadata| -> (kept: bool)
        ensures
            kept == (survives(stamp_time(segment.ended_at@), cutoff) && segment_has(
                *segment,
                query_view(needle),
            )),
        { stamp_is_kept(segment.ended_at.as_str(), cutoff) && segment_matches(segment, needle) };
    let mut segments = keep_where(
        recent_segments(found, None),
        keep,
        Ghost(wanted_segments(cutoff, query_view(needle))),
    );
    let ghost all = segments@;
    segments.truncate(plan.limit);
    proof {
        let pick = wanted_segments(cutoff, query_view(needle));
        picking_and_sorting_commute(found@, pick);
        let picked = found@.filter(pick);
        sorting_orders_by_date(picked);
        assert forall|i: int, j: int| 0 <= i <= j < segments@.len() implies text_le(
            (#[trigger] segments@[j]).ended_at@,
            (#[trigger] segments@[i]).ended_at@,
        ) by {
            assert(text_le(all[j].date(), all[i].date()));
        }
        assert forall|i: int| 0 <= i < segments@.len() implies found@.contains(
            #[trigger] segments@[i],
        ) && pick(segments@[i]) by {
            assert(all.contains(all[i]));
            assert(picked.contains(all[i]));
            let k = choose|k: int| 0 <= k < picked.len() && picked[k] == all[i];
            found@.lemma_filter_pred(pick, k);
            found@.lemma_filter_contains_rev(pick, all[i]);
        }
        assert forall|k: int|
            0 <= k < found@.len() && pick(#[trigger] found@[k]) && !segments@.contains(
                found@[k],
            ) implies segments@.len() == plan.limit && forall|i: int|
            0 <= i < segments@.len() ==> text_le(
                found@[k].ended_at@,
                (#[trigger] segments@[i]).ended_at@,
            ) by {
            found@.lemma_filter_contains(pick, k);
            assert(picked.contains(found@[k]));
            assert(all.contains(found@[k]));
            let n = choose|n: int| 0 <= n < all.len() && all[n] == found@[k];
            if n < segments@.len() {
                assert(segments@[n] == found@[k]);
            }
            assert forall|i: int| 0 <= i < segments@.len() implies text_le(
                found@[k].ended_at@,
                (#[trigger] segments@[i]).ended_at@,
            ) by {
                assert(text_le(all[n].date(), all[i].date()));
            }
        }
    }
    ScreenMemoryQueryResult { query: plan.query, minutes: plan.minutes, events, segments }
}

/// Everything that a newest-first selection gives was picked from the records it was given.
pub proof fn selection_is_sound<T: Dated>(
    records: Seq<T>,
    pick: spec_fn(T) -> bool,
    limit: int,
    i: int,
)
    requires
        0 <= limit,
        0 <= i < first_records(newest_first_of(records.filter(pick)), limit).len(),
    ensures
        records.contains(first_records(newest_first_of(records.filter(pick)), limit)[i]),
        pick(first_records(newest_first_of(records.filter(pick)), limit)[i]),
        i < limit,
{
    let picked = records.filter(pick);
    let sorted = newest_first_of(picked);
    newest_first_of_is_order(picked);
    same_by_date_holds_same_records(sorted, picked);
    let x = sorted[i];
    assert(sorted.contains(x));
    assert(picked.contains(x));
    let k = choose|k: int| 0 <= k < picked.len() && picked[k] == x;
    records.lemma_filter_pred(pick, k);
    records.lemma_filter_contains_rev(pick, x);
}

/// Where the limit leaves room for all that is picked, a newest-first selection gives all of it.
pub proof fn selection_is_complete<T: Dated>(
    records: Seq<T>,
    pick: spec_fn(T) -> bool,
    limit: int,
    i: int,
)
    requires
        0 <= i < records.len(),
        pick(records[i]),
        records.filter(pick).len() <= limit,
    ensures
        first_records(newest_first_of(records.filter(pick)), limit).contains(records[i]),
{
    let picked = records.filter(pick);
    let sorted = newest_first_of(picked);
    newest_first_of_is_order(picked);
    same_by_date_holds_same_records(sorted, picked);
    same_by_date_is_permutation(sorted, picked);
    records.lemma_filter_contains(pick, i);
    assert(picked.contains(records[i]));
}

/// What a newest-first selection leaves out for want of room is no newer than what it gives.
pub proof fn selection_gives_the_newest<T: Dated>(records: Seq<T>, limit: int, i: int, j: int)
    requires
        0 <= i < limit <= j < newest_first_of(records).len(),
    ensures
        crate::text::text_le(
            newest_first_of(records)[j].date(),
            first_records(newest_first_of(records), limit)[i].date(),
        ),
{
    newest_first_of_is_order(records);
}

/// What is dated less than the range before `now` is within the range.
pub proof fn fresh_is_in_range(at: UtcTime, now: UtcTime, minutes: int)
    requires
        now.is_clock_time(),
        now.secs - at.secs < range_minutes(minutes) * 60,
    ensures
        survives(Some(at), now.minus_secs(range_minutes(minutes) * 60)),
{
}

/// A longer range takes in everything that a shorter one does.
pub proof fn longer_range_keeps_more(
    time: Option<UtcTime>,
    now: UtcTime,
    minutes: int,
    more: int,
)
    requires
        now.is_clock_time(),
        minutes <= more,
        survives(time, now.minus_secs(range_minutes(minutes) * 60)),
    ensures
        survives(time, now.minus_secs(range_minutes(more) * 60)),
{
}

/// A blank search is no search: it is for nothing, as where nothing is written.
pub proof fn blank_query_is_none(text: Seq<char>)
    requires
        trimmed(text).len() == 0,
    ensures
        query_text(Some(text)) == query_text(None),
{
}

/// A search ignores case and the white space around the query: two searches at one time, over the
/// same range and with the same limit, whose queries are the same once trimmed and put in lower
/// case, find the same events and the same segments.
pub proof fn search_ignores_case_and_outer_white_space(
    plan: QueryPlan,
    query: Option<Seq<char>>,
    other_plan: QueryPlan,
    other_query: Option<Seq<char>>,
    minutes: int,
    limit: int,
    now: UtcTime,
    events: Seq<ScreenMemoryEvent>,
    found: Seq<ScreenMemorySegmentMetadata>,
)
    requires
        is_plan_for(plan, query, minutes, limit, now),
        is_plan_for(other_plan, other_query, minutes, limit, now),
        lowercase(searched(query)) == lowercase(searched(other_query)),
    ensures
        option_text(plan.query_lc) == option_text(other_plan.query_lc),
        first_records(
            newest_first_of(
                events.filter(wanted_events(plan.cutoff, option_text(plan.query_lc))),
            ),
            plan.limit as int,
        ) == first_records(
            newest_first_of(
                events.filter(wanted_events(other_plan.cutoff, option_text(other_plan.query_lc))),
            ),
            other_plan.limit as int,
        ),
        first_records(
            newest_first_of(found).filter(
                wanted_segments(plan.cutoff, option_text(plan.query_lc)),
            ),
            plan.limit as int,
        ) == first_records(
            newest_first_of(found).filter(
                wanted_segments(other_plan.cutoff, option_text(other_plan.query_lc)),
            ),
            other_plan.limit as int,
        ),
{
}

/// A recorded event comes up in every search that it matches and whose range it lies in, where the
/// limit leaves room for all that is found.
pub proof fn recorded_event_is_found(
    events: Seq<ScreenMemoryEvent>,
    i: int,
    at: UtcTime,
    now: UtcTime,
    minutes: int,
    query: Option<Seq<char>>,
    limit: int,
)
    requires
        0 <= i < events.len(),
        stamp_time(events[i].captured_at@) == Some(at),
        now.is_clock_time(),
        now.secs - at.secs < range_minutes(minutes) * 60,
        event_has(events[i], query),
        events.filter(
            wanted_events(now.minus_secs(range_minutes(minutes) * 60), query),
        ).len() <= limit,
    ensures
        first_records(
            newest_first_of(
                events.filter(
                    wanted_events(now.minus_secs(range_minutes(minutes) * 60), query),
                ),
            ),
            limit,
        ).contains(events[i]),
{
    let cutoff = now.minus_secs(range_minutes(minutes) * 60);
    fresh_is_in_range(at, now, minutes);
    selection_is_complete(events, wanted_events(cutoff, query), limit, i);
}

/// A stored segment comes up in every search that it matches and whose range it lies in, where the
/// limit leaves room for all that is found.
pub proof fn stored_segment_is_found(
    found: Seq<ScreenMemorySegmentMetadata>,
    i: int,
    at: UtcTime,
    now: UtcTime,
    minutes: int,
    query: Option<Seq<char>>,
    limit: int,
)
    requires
        0 <= i < found.len(),
        stamp_time(found[i].ended_at@) == Some(at),
        now.is_clock_time(),
        now.secs - at.secs < range_minutes(minutes) * 60,
        segment_has(found[i], query),
        found.filter(
            wanted_segments(now.minus_secs(range_minutes(minutes) * 60), query),
        ).len() <= limit,
    ensures
        first_records(
            newest_first_of(found).filter(
                wanted_segments(now.minus_secs(range_minutes(minutes) * 60), query),
            ),
            limit,
        ).contains(found[i]),
{
    let pick = wanted_segments(now.minus_secs(range_minutes(minutes) * 60), query);
    fresh_is_in_range(at, now, minutes);
    picking_and_sorting_commute(found, pick);
    selection_is_complete(found, pick, limit, i);
}

/// A segment is found by a query that occurs in the lower case of its id, of its file name or of its
/// path, and by a search for nothing; it is in range when it ended at or after the cutoff or its end
/// cannot be read. Nothing else about it counts.
pub proof fn segment_is_found_by_id_name_or_path(
    segment: ScreenMemorySegmentMetadata,
    cutoff: UtcTime,
    query: Seq<char>,
)
    ensures
        segment_has(segment, Some(query)) <==> (contains_text(lowercase(segment.id@), query)
            || contains_text(lowercase(segment.file_name@), query) || contains_text(
            lowercase(segment.path@),
            query,
        )),
        segment_has(segment, None),
        recent_enough(cutoff)(segment) <==> survives(stamp_time(segment.ended_at@), cutoff),
        wanted_segments(cutoff, Some(query))(segment) <==> survives(
            stamp_time(segment.ended_at@),
            cutoff,
        ) && segment_has(segment, Some(query)),
        wanted_segments(cutoff, None)(segment) <==> survives(
            stamp_time(segment.ended_at@),
            cutoff,
        ),
{
}

/// Two segments that have the same id, file name, path and end are found by the same searches.
pub proof fn only_four_fields_are_searched(
    a: ScreenMemorySegmentMetadata,
    b: ScreenMemorySegmentMetadata,
    cutoff: UtcTime,
    query: Option<Seq<char>>,
)
    requires
        a.id@ == b.id@,
        a.file_name@ == b.file_name@,
        a.path@ == b.path@,
        a.ended_at@ == b.ended_at@,
    ensures
        wanted_segments(cutoff, query)(a) == wanted_segments(cutoff, query)(b),
        recent_enough(cutoff)(a) == recent_enough(cutoff)(b),
{
}

/// The range of a search or an export is what was asked for, but at least one minute and at most
/// 43200.
pub proof fn range_is_clamped(minutes: int)
    ensures
        minutes < 1 ==> range_minutes(minutes) == 1,
        minutes > 43_200 ==> range_minutes(minutes) == 43_200,
        1 <= minutes <= 43_200 ==> range_minutes(minutes) == minutes,
{
}

/// What a plan holds: the trimmed query, unless it is blank, and its lower case; the range and the
/// limit within their bounds; and the cutoff that many minutes before `now`.
pub proof fn plan_holds_what_was_asked(
    plan: QueryPlan,
    query: Option<Seq<char>>,
    minutes: int,
    limit: int,
    now: UtcTime,
)
    requires
        is_plan_for(plan, query, minutes, limit, now),
        now.is_clock_time(),
    ensures
        (minutes < 1 ==> plan.minutes == 1) && (minutes > 43_200 ==> plan.minutes == 43_200) && (1
            <= minutes <= 43_200 ==> plan.minutes == minutes),
        (limit < 1 ==> plan.limit == 1) && (limit > 500 ==> plan.limit == 500) && (1 <= limit <= 500
            ==> plan.limit == limit),
        plan.cutoff.secs == now.secs - plan.minutes * 60,
        plan.cutoff.nanos == now.nanos,
        plan.query is Some <==> (query matches Some(text) && trimmed(text).len() > 0),
        plan.query matches Some(kept) ==> (query matches Some(text) && kept@ == trimmed(text)),
        plan.query_lc is Some <==> plan.query is Some,
        plan.query_lc matches Some(lower) ==> (plan.query matches Some(kept) && lower@
            == lowercase(kept@)),
{
}

} // verus!
