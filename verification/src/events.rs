//! The events of a run as a log: what can be said of which events it holds
//! and of their order.
use vstd::prelude::*;

use crate::types::{TestDesc, TestEvent};

verus! {

/// The descriptors of the `TeWait` events, in their order.
pub open spec fn wait_descs(log: Seq<TestEvent>) -> Seq<TestDesc>
    decreases log.len(),
{
    if log.len() == 0 {
        Seq::empty()
    } else {
        match log.last() {
            TestEvent::TeWait(d) => wait_descs(log.drop_last()).push(d),
            _ => wait_descs(log.drop_last()),
        }
    }
}

/// The descriptors of the `TeResult` events, in their order.
pub open spec fn result_descs(log: Seq<TestEvent>) -> Seq<TestDesc>
    decreases log.len(),
{
    if log.len() == 0 {
        Seq::empty()
    } else {
        match log.last() {
            TestEvent::TeResult(d, _, _) => result_descs(log.drop_last()).push(d),
            _ => result_descs(log.drop_last()),
        }
    }
}

/// The event is one of an entry: a start, a timeout or a result.
pub open spec fn is_entry_event(e: TestEvent) -> bool {
    e is TeWait || e is TeTimeout || e is TeResult
}

/// The event is one of the entry `d`: its start, a timeout of it or its result.
pub open spec fn about(e: TestEvent, d: TestDesc) -> bool {
    match e {
        TestEvent::TeWait(x) => x.same(&d),
        TestEvent::TeTimeout(x) => x.same(&d),
        TestEvent::TeResult(x, _, _) => x.same(&d),
        _ => false,
    }
}

/// The log opens with the number of entries that were filtered out and with
/// the descriptors of those that were not, once each, and goes on with
/// events of entries only.
pub open spec fn has_header(log: Seq<TestEvent>) -> bool {
    &&& log.len() >= 2
    &&& log[0] is TeFilteredOut
    &&& log[1] is TeFiltered
    &&& forall|i: int| 2 <= i < log.len() ==> is_entry_event(#[trigger] log[i])
}

/// The last event of the entry `d` is its start: the entry runs, and has
/// neither been reported as slow nor had its result since it started.
pub open spec fn runs_in_time(log: Seq<TestEvent>, d: TestDesc) -> bool
    decreases log.len(),
{
    if log.len() == 0 {
        false
    } else if about(log.last(), d) {
        log.last() is TeWait
    } else {
        runs_in_time(log.drop_last(), d)
    }
}

/// Every `TeTimeout` event stands behind the `TeWait` event of its entry,
/// with no `TeResult` and no other `TeTimeout` event of that entry in between.
pub open spec fn timeouts_in_turn(log: Seq<TestEvent>) -> bool {
    forall|i: int|
        0 <= i < log.len() ==> (#[trigger] log[i] matches TestEvent::TeTimeout(d) ==> runs_in_time(
            log.take(i),
            d,
        ))
}

/// After the header a `TeWait` and a `TeResult` event take turns, the `TeWait` first.
pub open spec fn alternates(log: Seq<TestEvent>) -> bool
    decreases log.len(),
{
    if log.len() <= 2 {
        true
    } else if (log.len() - 2) % 2 == 1 {
        log.last() is TeWait && alternates(log.drop_last())
    } else {
        log.last() is TeResult && alternates(log.drop_last())
    }
}

/// Every result is that of the entry whose start stands right before it: what
/// an executor that runs one entry at a time hands back.
pub open spec fn results_answer_waits(log: Seq<TestEvent>) -> bool
    decreases log.len(),
{
    if log.len() < 2 {
        true
    } else {
        &&& log.last() matches TestEvent::TeResult(d, _, _) ==> log[log.len() - 2]
            == TestEvent::TeWait(d)
        &&& results_answer_waits(log.drop_last())
    }
}

/// A log of a whole run: every entry that was not filtered out has its
/// `TeWait` event, in the order in which the entries start, there are as
/// many results as entries, and every timeout stands in its turn.
pub open spec fn is_complete_run(log: Seq<TestEvent>, schedule: Seq<TestDesc>) -> bool {
    &&& has_header(log)
    &&& log[1]->TeFiltered_0@.len() == schedule.len()
    &&& wait_descs(log) == schedule
    &&& result_descs(log).len() == schedule.len()
    &&& timeouts_in_turn(log)
}

/// The `TeTimeout` events for the entries, in their order.
pub open spec fn timeouts(descs: Seq<TestDesc>) -> Seq<TestEvent> {
    Seq::new(descs.len(), |i: int| TestEvent::TeTimeout(descs[i]))
}

/// How many starts of the entry `d` the log holds.
pub open spec fn starts_of(log: Seq<TestEvent>, d: TestDesc) -> nat
    decreases log.len(),
{
    if log.len() == 0 {
        0
    } else if log.last() matches TestEvent::TeWait(x) && x.same(&d) {
        starts_of(log.drop_last(), d) + 1
    } else {
        starts_of(log.drop_last(), d)
    }
}

/// How many results of the entry `d` the log holds.
pub open spec fn results_of(log: Seq<TestEvent>, d: TestDesc) -> nat
    decreases log.len(),
{
    if log.len() == 0 {
        0
    } else if log.last() matches TestEvent::TeResult(x, _, _) && x.same(&d) {
        results_of(log.drop_last(), d) + 1
    } else {
        results_of(log.drop_last(), d)
    }
}

/// At no point of the log has an entry had more results than starts: every
/// result is that of an entry that was in flight.
pub open spec fn results_follow_starts(log: Seq<TestEvent>) -> bool
    decreases log.len(),
{
    if log.len() == 0 {
        true
    } else {
        &&& results_follow_starts(log.drop_last())
        &&& forall|d: TestDesc| #[trigger] results_of(log, d) <= starts_of(log, d)
    }
}

/// Every entry has had a result for each of its starts.
pub open spec fn all_answered(log: Seq<TestEvent>) -> bool {
    forall|d: TestDesc| #[trigger] results_of(log, d) == starts_of(log, d)
}

/// An entry that runs in time has a start that no result has answered yet.
pub proof fn lemma_running_is_unanswered(log: Seq<TestEvent>, d: TestDesc)
    requires
        runs_in_time(log, d),
        results_follow_starts(log),
    ensures
        results_of(log, d) < starts_of(log, d),
    decreases log.len(),
{
    reveal_with_fuel(results_follow_starts, 2);
    let dl = log.drop_last();
    if about(log.last(), d) {
        if dl.len() > 0 {
            assert(results_of(dl, d) <= starts_of(dl, d));
        }
    } else {
        lemma_running_is_unanswered(dl, d);
    }
}

/// What one more event adds to the starts and the results of a log.
pub proof fn lemma_descs_push(log: Seq<TestEvent>, e: TestEvent)
    ensures
        wait_descs(log.push(e)) == (match e {
            TestEvent::TeWait(d) => wait_descs(log).push(d),
            _ => wait_descs(log),
        }),
        result_descs(log.push(e)) == (match e {
            TestEvent::TeResult(d, _, _) => result_descs(log).push(d),
            _ => result_descs(log),
        }),
{
    assert(log.push(e).drop_last() =~= log);
}

/// Whether an entry runs in time after one more event.
pub proof fn lemma_runs_push(log: Seq<TestEvent>, e: TestEvent, d: TestDesc)
    ensures
        runs_in_time(log.push(e), d) == if about(e, d) {
            e is TeWait
        } else {
            runs_in_time(log, d)
        },
{
    assert(log.push(e).drop_last() =~= log);
}

/// A log whose timeouts stand in their turn goes on with an event that is
/// no timeout, or with the timeout of an entry that runs in time.
pub proof fn lemma_in_turn_push(log: Seq<TestEvent>, e: TestEvent)
    requires
        timeouts_in_turn(log),
        e matches TestEvent::TeTimeout(d) ==> runs_in_time(log, d),
    ensures
        timeouts_in_turn(log.push(e)),
{
    let l2 = log.push(e);
    assert forall|i: int| 0 <= i < l2.len() implies (#[trigger] l2[i] matches TestEvent::TeTimeout(
        d,
    ) ==> runs_in_time(l2.take(i), d)) by {
        if i < log.len() {
            assert(l2.take(i) =~= log.take(i));
            assert(l2[i] == log[i]);
        } else {
            assert(l2.take(i) =~= log);
        }
    }
}

/// A log with a header keeps it when it goes on with an event of an entry.
pub proof fn lemma_header_push(log: Seq<TestEvent>, e: TestEvent)
    requires
        has_header(log),
        is_entry_event(e),
    ensures
        has_header(log.push(e)),
        log.push(e)[1] == log[1],
{
}

/// A timeout stands only behind a start of its entry.
pub proof fn lemma_runs_has_started(log: Seq<TestEvent>, d: TestDesc)
    requires
        runs_in_time(log, d),
    ensures
        exists|k: int| 0 <= k < log.len() && (#[trigger] log[k] matches TestEvent::TeWait(x) && x.same(&d)),
    decreases log.len(),
{
    if about(log.last(), d) {
        assert(log[log.len() - 1] == log.last());
    } else {
        lemma_runs_has_started(log.drop_last(), d);
        let k = choose|k: int|
            0 <= k < log.drop_last().len() && (#[trigger] log.drop_last()[k] matches TestEvent::TeWait(
                x,
            ) && x.same(&d));
        assert(log[k] == log.drop_last()[k]);
    }
}

/// Where a `TeWait` and a `TeResult` event take turns and every result
/// answers the start before it, the results are those of the entries that
/// started, in the order in which they started.
pub proof fn lemma_turns(log: Seq<TestEvent>)
    requires
        log.len() >= 2,
        !(log[0] is TeWait) && !(log[0] is TeResult),
        !(log[1] is TeWait) && !(log[1] is TeResult),
        alternates(log),
        results_answer_waits(log),
        (log.len() - 2) % 2 == 0,
    ensures
        result_descs(log) == wait_descs(log),
    decreases log.len(),
{
    reveal_with_fuel(alternates, 3);
    reveal_with_fuel(results_answer_waits, 3);
    reveal_with_fuel(result_descs, 3);
    reveal_with_fuel(wait_descs, 3);
    if log.len() == 2 {
        assert(log.drop_last().drop_last() =~= Seq::<TestEvent>::empty());
        assert(result_descs(log.drop_last().drop_last()) =~= Seq::<TestDesc>::empty());
        assert(wait_descs(log.drop_last().drop_last()) =~= Seq::<TestDesc>::empty());
        assert(log.drop_last().last() == log[0]);
        assert(log.last() == log[1]);
    } else {
        let n = log.len() as int;
        let mid = log.drop_last();
        let head = mid.drop_last();
        assert(log.last() is TeResult);
        assert(mid.last() is TeWait);
        assert(log[n - 2] == mid.last());
        assert(head[0] == log[0]);
        assert(head[1] == log[1]);
        lemma_turns(head);
    }
}

} // verus!
