//! What holds of report assembly whatever the records are.

use vstd::prelude::*;
use crate::reporting::aggregate::{Admission, Group, SizedRecordView, distinct, fits, lemma_position,
    lemma_scan_distinct, lemma_step_keeps, position, scan, start, step};
use crate::reporting::dmarc::{AggregateFrequency, AggregateSettings, DmarcEventView, SerializedSize,
    ServerView, deleted, delivered, delivery_budget, generated, scheduled};
use crate::reporting::sequence::{after_issue, issued};
use crate::reporting::store::{HeaderEntryView, RecordEntryView, ReportEventView, StoreView, Window,
    all_below, header_at, header_of, headers_with, headers_without, lemma_header_at,
    lemma_headers_without, lemma_headers_without_one_each, lemma_without_ascending,
    lemma_without_below, lemma_without_scan, records_of, records_without};
use crate::reporting::types::RecordView;

verus! {

/// Whether the first budget is at most the second; no budget is the
/// largest of all.
pub open spec fn budget_le(small: Option<usize>, large: Option<usize>) -> bool {
    match (small, large) {
        (_, None) => true,
        (Some(a), Some(b)) => a <= b,
        (None, Some(_)) => false,
    }
}

/// How a scan under a smaller budget relates to the scan of the same
/// records under a larger one: its groups are the first groups of the
/// other, and while it still admits, the two scans are in the same
/// state.
pub open spec fn within(small: Admission, large: Admission) -> bool {
    &&& small.groups.len() <= large.groups.len()
    &&& small.groups == large.groups.take(small.groups.len() as int)
    &&& small.open ==> large.open && small.groups.len() == large.groups.len() && small.used
        == large.used
}

proof fn lemma_step_within(
    small: Admission,
    large: Admission,
    item: SizedRecordView,
    b1: Option<usize>,
    b2: Option<usize>,
)
    requires
        budget_le(b1, b2),
        within(small, large),
        distinct(small.groups),
        distinct(large.groups),
    ensures
        within(step(small, item, b1), step(large, item, b2)),
{
    let key = item.record.dedup_key();
    let n = small.groups.len() as int;
    lemma_position(small.groups, key);
    lemma_position(large.groups, key);
    assert(forall|j: int| 0 <= j < n ==> small.groups[j] == large.groups.take(n)[j]);
    let small2 = step(small, item, b1);
    let large2 = step(large, item, b2);
    match position(small.groups, key) {
        Some(i) => {
            assert(large.groups[i].record.dedup_key() == key);
            assert(position(large.groups, key) == Some(i));
            assert(small2.groups =~= large2.groups.take(n));
        },
        None => {
            match position(large.groups, key) {
                Some(j) => {
                    assert(j >= n) by {
                        if j < n {
                            assert(small.groups[j] == large.groups[j]);
                        }
                    }
                    assert(small2.groups =~= large2.groups.take(n));
                },
                None => {
                    if small.open {
                        assert(small.groups =~= large.groups);
                        if fits(b1, small.used, item.serialized_size as nat) {
                            assert(fits(b2, large.used, item.serialized_size as nat));
                            assert(small2.groups =~= large2.groups);
                            assert(small2.groups =~= large2.groups.take(n + 1));
                        } else {
                            assert(small2.groups =~= large2.groups.take(n));
                        }
                    } else {
                        assert(small2.groups =~= large2.groups.take(n));
                    }
                },
            }
        },
    }
}

proof fn lemma_scan_within(
    records: Seq<SizedRecordView>,
    shell_size: usize,
    b1: Option<usize>,
    b2: Option<usize>,
)
    requires
        budget_le(b1, b2),
    ensures
        within(scan(records, shell_size, b1), scan(records, shell_size, b2)),
    decreases records.len(),
{
    if records.len() == 0 {
        assert(start(shell_size, b1).groups =~= start(shell_size, b2).groups.take(0));
    } else {
        let front = records.drop_last();
        lemma_scan_within(front, shell_size, b1, b2);
        lemma_scan_distinct(front, shell_size, b1);
        lemma_scan_distinct(front, shell_size, b2);
        lemma_step_within(
            scan(front, shell_size, b1),
            scan(front, shell_size, b2),
            records.last(),
            b1,
            b2,
        );
    }
}

/// A larger budget never admits fewer groups: for the same records and
/// the same shell, the groups admitted under the smaller budget are the
/// first groups admitted under the larger one, each with the same record
/// and the same count.
pub proof fn law_budget_monotone(
    records: Seq<SizedRecordView>,
    shell_size: usize,
    small: Option<usize>,
    large: Option<usize>,
)
    requires
        budget_le(small, large),
    ensures
        scan(records, shell_size, small).groups.len() <= scan(
            records,
            shell_size,
            large,
        ).groups.len(),
        scan(records, shell_size, small).groups == scan(records, shell_size, large).groups.take(
            scan(records, shell_size, small).groups.len() as int,
        ),
{
    lemma_scan_within(records, shell_size, small, large);
}

/// A record of a group that was admitted is folded into it, whatever
/// the budget, the bytes used so far, the record's size, and whether
/// admission is still open: the group's count goes up by one, and
/// nothing else changes.
pub proof fn law_admitted_group_folds(
    records: Seq<SizedRecordView>,
    item: SizedRecordView,
    shell_size: usize,
    budget: Option<usize>,
    at: int,
)
    requires
        0 <= at < scan(records, shell_size, budget).groups.len(),
        scan(records, shell_size, budget).groups[at].record.dedup_key()
            == item.record.dedup_key(),
    ensures
        ({
            let before = scan(records, shell_size, budget);
            let after = scan(records.push(item), shell_size, budget);
            &&& after.groups == before.groups.update(
                at,
                Group { record: before.groups[at].record, count: before.groups[at].count + 1 },
            )
            &&& after.used == before.used
            &&& after.open == before.open
        }),
{
    let before = scan(records, shell_size, budget);
    assert(records.push(item).drop_last() =~= records);
    assert(records.push(item).last() == item);
    lemma_scan_distinct(records, shell_size, budget);
    lemma_position(before.groups, item.record.dedup_key());
}

/// A budget that the shell alone exceeds admits no group at all.
pub proof fn law_exhausted_by_shell(
    records: Seq<SizedRecordView>,
    shell_size: usize,
    limit: usize,
)
    requires
        limit < shell_size,
    ensures
        scan(records, shell_size, Some(limit)).groups.len() == 0,
        !scan(records, shell_size, Some(limit)).open,
    decreases records.len(),
{
    if records.len() > 0 {
        law_exhausted_by_shell(records.drop_last(), shell_size, limit);
    }
}

/// How many of `records` belong to the group that `key` identifies.
pub open spec fn members(records: Seq<SizedRecordView>, key: RecordView) -> nat
    decreases records.len(),
{
    if records.len() == 0 {
        0
    } else {
        members(records.drop_last(), key) + if records.last().record.dedup_key() == key {
            1nat
        } else {
            0nat
        }
    }
}

/// The first of `records` that belongs to the group of `key`, if any.
pub open spec fn first_member(records: Seq<SizedRecordView>, key: RecordView) -> Option<
    SizedRecordView,
>
    decreases records.len(),
{
    if records.len() == 0 {
        None
    } else {
        match first_member(records.drop_last(), key) {
            Some(found) => Some(found),
            None => if records.last().record.dedup_key() == key {
                Some(records.last())
            } else {
                None
            },
        }
    }
}

/// Every group that a scan admits is headed by the first record of the
/// scan with its key, and counts that record's own count plus one for
/// each later record with the key: no record of an admitted group is
/// lost, and none is counted twice.
pub proof fn law_counts_are_exact(
    records: Seq<SizedRecordView>,
    shell_size: usize,
    budget: Option<usize>,
    at: int,
)
    requires
        0 <= at < scan(records, shell_size, budget).groups.len(),
    ensures
        ({
            let group = scan(records, shell_size, budget).groups[at];
            let key = group.record.dedup_key();
            &&& first_member(records, key) matches Some(first) && first.record == group.record
            &&& group.count == group.record.count + members(records, key) - 1
        }),
    decreases records.len(),
{
    if records.len() > 0 {
        let front = records.drop_last();
        let item = records.last();
        let before = scan(front, shell_size, budget);
        let after = scan(records, shell_size, budget);
        let key = after.groups[at].record.dedup_key();
        lemma_scan_distinct(front, shell_size, budget);
        lemma_step_keeps(before, item, budget);
        lemma_position(before.groups, item.record.dedup_key());
        if at < before.groups.len() {
            law_counts_are_exact(front, shell_size, budget, at);
            assert(after.groups[at].record == before.groups[at].record);
        } else {
            assert(position(before.groups, item.record.dedup_key()) is None);
            assert(before.open);
            assert(after.groups[at] == (Group {
                record: item.record,
                count: item.record.count as nat,
            }));
            lemma_open_scan_admitted_all(front, shell_size, budget, key);
        }
    }
}

/// While admission is open, every record seen so far is in a group: a
/// key without a group has no record in the scan.
proof fn lemma_open_scan_admitted_all(
    records: Seq<SizedRecordView>,
    shell_size: usize,
    budget: Option<usize>,
    key: RecordView,
)
    requires
        scan(records, shell_size, budget).open,
        position(scan(records, shell_size, budget).groups, key) is None,
    ensures
        members(records, key) == 0,
        first_member(records, key) is None,
    decreases records.len(),
{
    if records.len() > 0 {
        let front = records.drop_last();
        let item = records.last();
        let before = scan(front, shell_size, budget);
        lemma_scan_distinct(front, shell_size, budget);
        lemma_step_keeps(before, item, budget);
        lemma_position(before.groups, item.record.dedup_key());
        lemma_position(before.groups, key);
        lemma_position(step(before, item, budget).groups, key);
        assert(before.open);
        if position(before.groups, key) is Some {
            let p = position(before.groups, key)->0;
            assert(step(before, item, budget).groups[p].record == before.groups[p].record);
            assert(false);
        }
        lemma_open_scan_admitted_all(front, shell_size, budget, key);
        if item.record.dedup_key() == key {
            let after = step(before, item, budget);
            match position(before.groups, key) {
                Some(p) => {},
                None => {
                    assert(after.groups.last().record == item.record);
                    assert(false);
                },
            }
        }
    }
}

/// The state after a run of accumulations, the `i`-th at time
/// `times[i]`.
pub open spec fn scheduled_all(state: ServerView, events: Seq<DmarcEventView>, times: Seq<u64>) -> ServerView
    decreases events.len(),
{
    if events.len() == 0 || times.len() == 0 {
        state
    } else {
        scheduled(
            scheduled_all(state, events.drop_last(), times.drop_last()),
            events.last(),
            times.last(),
        ).0
    }
}

/// Writing a header gives its window a header.
pub proof fn lemma_headers_with(headers: Seq<HeaderEntryView>, entry: HeaderEntryView)
    requires
        forall|i: int, j: int|
            0 <= i < j < headers.len() ==> headers[i].event.window() != headers[j].event.window(),
    ensures
        header_of(headers_with(headers, entry), entry.event.window()) == Some(entry.format),
        forall|i: int, j: int|
            0 <= i < j < headers_with(headers, entry).len() ==> headers_with(
                headers,
                entry,
            )[i].event.window() != headers_with(headers, entry)[j].event.window(),
{
    let window = entry.event.window();
    let after = headers_with(headers, entry);
    lemma_header_at(headers, window);
    lemma_header_at(after, window);
    match header_at(headers, window) {
        Some(i) => {
            assert(after[i] == entry);
        },
        None => {
            assert(after[headers.len() as int] == entry);
        },
    }
}

/// One accumulation into a store that can be reached, with a sequence
/// number left: the window has a header afterwards, and exactly one
/// record more than before.
pub proof fn lemma_scheduled_once(state: ServerView, event: DmarcEventView, now: u64)
    requires
        state.wf(),
        state.store.online,
        state.next_id < u64::MAX,
        event.interval != AggregateFrequency::Never,
    ensures
        ({
            let window = event.header_key(now).window();
            let after = scheduled(state, event, now);
            &&& after.1 is Ok
            &&& after.0.wf()
            &&& after.0.store.online
            &&& after.0.next_id == state.next_id + 1
            &&& header_of(after.0.store.headers, window) is Some
            &&& records_of(after.0.store.records, window) == records_of(
                state.store.records,
                window,
            ).push(Some(event.report_record))
        }),
{
    let window = event.header_key(now).window();
    let after = scheduled(state, event, now).0;
    lemma_headers_with(state.store.headers, event.header(now));
    let pushed = state.store.records.push(event.record(now, state.next_id));
    assert(pushed.drop_last() =~= state.store.records);
}

/// Accumulations that share one window, into a store that can be
/// reached and with sequence numbers left for all of them, each persist
/// exactly one record: after `n` of them the window holds `n` records
/// more, under sequence numbers that differ from each other, and it has
/// a header.
pub proof fn law_every_accumulation_persists(
    state: ServerView,
    events: Seq<DmarcEventView>,
    times: Seq<u64>,
    window: Window,
)
    requires
        state.wf(),
        state.store.online,
        events.len() == times.len(),
        state.next_id + events.len() <= u64::MAX,
        forall|i: int|
            0 <= i < events.len() ==> events[i].interval != AggregateFrequency::Never
                && events[i].header_key(times[i]).window() == window,
    ensures
        ({
            let after = scheduled_all(state, events, times);
            &&& after.wf()
            &&& after.store.online
            &&& after.next_id == state.next_id + events.len()
            &&& records_of(after.store.records, window).len() == records_of(
                state.store.records,
                window,
            ).len() + events.len()
            &&& events.len() > 0 ==> header_of(after.store.headers, window) is Some
        }),
    decreases events.len(),
{
    if events.len() > 0 {
        let front = events.drop_last();
        let before = scheduled_all(state, front, times.drop_last());
        assert forall|i: int| 0 <= i < front.len() implies front[i].interval
            != AggregateFrequency::Never && front[i].header_key(times.drop_last()[i]).window()
            == window by {
            assert(front[i] == events[i]);
            assert(times.drop_last()[i] == times[i]);
        }
        law_every_accumulation_persists(state, front, times.drop_last(), window);
        lemma_scheduled_once(before, events.last(), times.last());
    }
}

/// Deleting a window twice leaves what deleting it once leaves, and
/// after the deletion the window has neither a header nor a record.
pub proof fn law_delete_idempotent(store: StoreView, window: Window)
    ensures
        deleted(deleted(store, window), window) == deleted(store, window),
        store.online ==> deleted(store, window).is_clear_of(window),
{
    if store.online {
        lemma_without_twice(store.records, window);
        lemma_headers_without_twice(store.headers, window);
        lemma_without_scan(store.records, window, window);
        lemma_headers_without(store.headers, window, window);
    }
}

proof fn lemma_without_twice(records: Seq<RecordEntryView>, window: Window)
    ensures
        records_without(records_without(records, window), window) == records_without(
            records,
            window,
        ),
    decreases records.len(),
{
    if records.len() > 0 {
        let front = records.drop_last();
        lemma_without_twice(front, window);
        if !records.last().event.in_range(window) {
            let kept = records_without(front, window).push(records.last());
            assert(kept.drop_last() =~= records_without(front, window));
        }
    }
}

proof fn lemma_headers_without_twice(headers: Seq<HeaderEntryView>, window: Window)
    ensures
        headers_without(headers_without(headers, window), window) == headers_without(
            headers,
            window,
        ),
    decreases headers.len(),
{
    if headers.len() > 0 {
        let front = headers.drop_last();
        lemma_headers_without_twice(front, window);
        if headers.last().event.window() != window {
            let kept = headers_without(front, window).push(headers.last());
            assert(kept.drop_last() =~= headers_without(front, window));
        }
    }
}

/// Deleting one window leaves every other window as it was.
pub proof fn law_delete_leaves_others(store: StoreView, window: Window, other: Window)
    requires
        other != window,
    ensures
        header_of(deleted(store, window).headers, other) == header_of(store.headers, other),
        records_of(deleted(store, window).records, other) == records_of(store.records, other),
{
    lemma_without_scan(store.records, window, other);
    lemma_headers_without(store.headers, window, other);
}

/// Once the report of a window was generated, the delivery reclaims the
/// window whatever the authorizer says: neither its header nor any of
/// its records is left, and a later generation finds nothing. Where the
/// window could not be read, or has no header, the delivery changes
/// nothing.
pub proof fn law_delivery_reclaims_window(
    store: StoreView,
    event: ReportEventView,
    settings: AggregateSettings,
    shell_size: usize,
    later_budget: Option<SerializedSize>,
)
    ensures
        ({
            let after = delivered(store, event, settings, shell_size);
            match generated(store, event, delivery_budget(settings, shell_size), settings) {
                Ok(Some(_)) => after.is_clear_of(event.window()) && generated(
                    after,
                    event,
                    later_budget,
                    settings,
                ) == Ok::<Option<crate::reporting::dmarc::ReportView>, crate::reporting::store::StoreError>(None),
                _ => after == store,
            }
        }),
{
    if store.online {
        law_delete_idempotent(store, event.window());
    }
}

} // verus!
