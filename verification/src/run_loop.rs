//! The run loop: which entry starts next, how long to wait for a result, and
//! what is reported.
//!
//! The loop itself is the caller's: it asks `next` what to do, does it, and
//! hands back what happened. `next` answers with an entry to start, with a
//! wait for a result, or with the end of the run. A result that arrives goes
//! to `deliver`, a wait that ran out to `harvest`. Every event that these
//! hand out is to be reported, in the order in which it is handed out.
use vstd::prelude::*;

use crate::bench::convert_benchmarks_to_tests;
use crate::bench::converted;
use crate::events::{
    all_answered, alternates, has_header, is_complete_run, lemma_descs_push, lemma_header_push,
    lemma_in_turn_push, lemma_running_is_unanswered, lemma_runs_has_started, lemma_runs_push,
    lemma_turns, result_descs,
    results_answer_waits, results_follow_starts, results_of, runs_in_time, starts_of, timeouts,
    timeouts_in_turn, wait_descs,
};
use crate::filter::{filter_spec, filter_tests, sorted_by_name};
use crate::text::bytes_le;
use crate::timeout_table::{
    alive, deadline_at, deadline_for, distinct_keys, expired, lemma_alive_distinct,
    lemma_alive_members, lemma_without_distinct, lemma_without_members, next_timeout, without,
    TimeoutTable,
};
use crate::types::{
    Concurrent, MonitorMsg, TestDesc, TestDescAndFn, TestEvent, TestFn, TestOpts, TestResult,
};
use crate::vecs::reversed;

verus! {

/// The descriptors of the entries, in their order.
pub open spec fn descs_of(s: Seq<TestDescAndFn>) -> Seq<TestDesc> {
    Seq::new(s.len(), |i: int| s[i].desc)
}

/// The entries as they are run: benchmarks as tests unless they are measured,
/// each name with the padding of what the entry is.
pub open spec fn prepared(measure: bool, filtered: Seq<TestDescAndFn>, ready: Seq<TestDescAndFn>) -> bool {
    &&& ready.len() == filtered.len()
    &&& forall|i: int|
        0 <= i < filtered.len() ==> {
            &&& (#[trigger] ready[i]).desc.name is AlignedTestName
            &&& ready[i].desc.name.text() == filtered[i].desc.name.text()
            &&& ready[i].desc.name.spec_padding() == ready[i].testfn.spec_padding()
            &&& ready[i].desc.ignore == filtered[i].desc.ignore
            &&& ready[i].desc.should_panic == filtered[i].desc.should_panic
            &&& ready[i].desc.allow_fail == filtered[i].desc.allow_fail
            &&& ready[i].testfn.is_bench() == (measure && filtered[i].testfn.is_bench())
            &&& ready[i].testfn.is_bench() == filtered[i].testfn.is_bench() ==> ready[i].testfn
                == filtered[i].testfn
        }
}

/// The tests among the entries, in their order.
pub open spec fn tests_of(s: Seq<TestDescAndFn>) -> Seq<TestDescAndFn>
    decreases s.len(),
{
    if s.len() == 0 {
        Seq::empty()
    } else if s.last().testfn.is_bench() {
        tests_of(s.drop_last())
    } else {
        tests_of(s.drop_last()).push(s.last())
    }
}

/// The benchmarks among the entries, in their order.
pub open spec fn benches_of(s: Seq<TestDescAndFn>) -> Seq<TestDescAndFn>
    decreases s.len(),
{
    if s.len() == 0 {
        Seq::empty()
    } else if s.last().testfn.is_bench() {
        benches_of(s.drop_last()).push(s.last())
    } else {
        benches_of(s.drop_last())
    }
}

/// No descriptor's name sorts after that of a later one, byte by byte.
pub open spec fn names_sorted(s: Seq<TestDesc>) -> bool {
    forall|i: int, j: int|
        0 <= i < j < s.len() ==> bytes_le(s[i].name.bytes(), s[j].name.bytes())
}

/// What the caller of the run loop does next.
pub enum Step {
    /// Report `event`, then start `test` as `run_test` says with these
    /// arguments. Its result is to be delivered when it arrives.
    Launch { event: TestEvent, test: TestDescAndFn, force_ignore: bool, concurrency: Concurrent },
    /// Wait for a result, for `timeout` nanoseconds at most, without end if
    /// there is no timeout. Deliver the result if one arrives, harvest if
    /// none does.
    Receive { timeout: Option<u64> },
    /// The run is over.
    Done,
}

/// Every test of the table runs in time by the log, and none is there twice.
pub open spec fn table_tracked(log: Seq<TestEvent>, table: Seq<(TestDesc, u64)>) -> bool {
    &&& distinct_keys(table)
    &&& forall|i: int| 0 <= i < table.len() ==> runs_in_time(log, (#[trigger] table[i]).0)
}

/// The state of a run.
pub struct RunLoop {
    /// The tests that have not started, the next one last.
    remaining: Vec<TestDescAndFn>,
    /// The benchmarks that have not started, the next one last.
    benches: Vec<TestDescAndFn>,
    /// The running tests that have a deadline.
    running: TimeoutTable,
    /// The entries that have started and whose result has not arrived.
    pending: usize,
    /// The entries that may run at a time.
    concurrency: usize,
    /// Whether tests are reported as ignored without being run.
    force_ignore: bool,
    /// Whether a benchmark has started.
    benching: bool,
    /// Every event handed out so far.
    log: Ghost<Seq<TestEvent>>,
    /// The descriptors of all entries, in the order in which they start.
    schedule: Ghost<Seq<TestDesc>>,
    /// How many of the entries are tests.
    test_count: Ghost<int>,
}

impl RunLoop {
    /// Every event handed out so far, in order.
    pub closed spec fn log(&self) -> Seq<TestEvent> {
        self.log@
    }

    /// The descriptors of all entries of the run, in the order in which they start.
    pub closed spec fn schedule(&self) -> Seq<TestDesc> {
        self.schedule@
    }

    /// How many of the entries are tests: they start before the benchmarks.
    pub closed spec fn test_count(&self) -> int {
        self.test_count@
    }

    /// The tests that have not started, the next one first.
    pub closed spec fn tests_queued(&self) -> Seq<TestDescAndFn> {
        self.remaining@.reverse()
    }

    /// The benchmarks that have not started, the next one first.
    pub closed spec fn benches_queued(&self) -> Seq<TestDescAndFn> {
        self.benches@.reverse()
    }

    /// The running tests that have a deadline, each with its own.
    pub closed spec fn deadlines(&self) -> Seq<(TestDesc, u64)> {
        self.running@
    }

    /// The entries that have started and whose result has not arrived.
    pub closed spec fn in_flight(&self) -> nat {
        self.pending as nat
    }

    /// The entries that may run at a time.
    pub closed spec fn limit(&self) -> nat {
        self.concurrency as nat
    }

    /// Whether tests are reported as ignored without being run.
    pub closed spec fn forces_ignore(&self) -> bool {
        self.force_ignore
    }

    /// Whether a benchmark has started: from then on no entry gets a deadline.
    pub closed spec fn measuring(&self) -> bool {
        self.benching
    }

    /// How many entries have started and have not had their result delivered.
    pub fn pending(&self) -> (r: usize)
        ensures
            r == self.in_flight(),
    {
        self.pending
    }

    /// How many running tests have a deadline.
    pub fn running(&self) -> (r: usize)
        ensures
            r == self.deadlines().len(),
    {
        self.running.len()
    }

    /// The entries that have started.
    pub open spec fn launched(&self) -> int {
        self.schedule().len() - self.tests_queued().len() - self.benches_queued().len()
    }

    /// The run has nothing left to start and nothing left to wait for.
    pub open spec fn is_done(&self) -> bool {
        self.tests_queued().len() == 0 && self.benches_queued().len() == 0 && self.in_flight()
            == 0
    }

    /// What holds of the state of every run.
    pub open spec fn wf(&self) -> bool {
        &&& self.limit() >= 1
        &&& self.in_flight() <= self.limit()
        &&& has_header(self.log())
        &&& self.log()[1]->TeFiltered_0@.len() == self.schedule().len()
        &&& descs_of(self.tests_queued()) + descs_of(self.benches_queued())
            == self.schedule().skip(self.launched())
        &&& 0 <= self.launched() <= self.schedule().len()
        &&& 0 <= self.test_count() <= self.schedule().len()
        &&& self.test_count() == self.schedule().len() - self.benches_queued().len()
            || self.tests_queued().len() == 0
        &&& names_sorted(self.schedule().take(self.test_count()))
        &&& names_sorted(self.schedule().skip(self.test_count()))
        &&& wait_descs(self.log()) == self.schedule().take(self.launched())
        &&& result_descs(self.log()).len() + self.in_flight() == self.launched()
        &&& timeouts_in_turn(self.log())
        &&& table_tracked(self.log(), self.deadlines())
        &&& forall|i: int|
            0 <= i < self.tests_queued().len() ==> !(#[trigger] self.tests_queued()[i]).testfn.is_bench()
        &&& self.limit() == 1 ==> {
            &&& self.deadlines().len() == 0
            &&& alternates(self.log())
            &&& self.in_flight() == (self.log().len() - 2) % 2
        }
    }
}

/// A test that starts with a deadline is tracked by the table, with the
/// tests that it held.
proof fn lemma_track_start(
    log: Seq<TestEvent>,
    table: Seq<(TestDesc, u64)>,
    desc: TestDesc,
    deadline: u64,
)
    requires
        table_tracked(log, table),
    ensures
        table_tracked(
            log.push(TestEvent::TeWait(desc)),
            without(table, desc).push((desc, deadline)),
        ),
{
    let e = TestEvent::TeWait(desc);
    let rest = without(table, desc);
    let t2 = rest.push((desc, deadline));
    lemma_without_distinct(table, desc);
    assert forall|i: int, j: int| 0 <= i < j < t2.len() implies !t2[i].0.same(&t2[j].0) by {
        if j < rest.len() {
            assert(!rest[i].0.same(&rest[j].0));
        } else {
            lemma_without_members(table, desc, i);
        }
    }
    assert forall|i: int| 0 <= i < t2.len() implies runs_in_time(
        log.push(e),
        (#[trigger] t2[i]).0,
    ) by {
        lemma_runs_push(log, e, t2[i].0);
        if i < rest.len() {
            lemma_without_members(table, desc, i);
            let k = choose|k: int| 0 <= k < table.len() && table[k] == rest[i];
            assert(runs_in_time(log, table[k].0));
        }
    }
}

/// A start without a deadline leaves the tests of the table as they are.
proof fn lemma_track_start_plain(log: Seq<TestEvent>, table: Seq<(TestDesc, u64)>, desc: TestDesc)
    requires
        table_tracked(log, table),
    ensures
        table_tracked(log.push(TestEvent::TeWait(desc)), table),
{
    let e = TestEvent::TeWait(desc);
    assert forall|i: int| 0 <= i < table.len() implies runs_in_time(
        log.push(e),
        (#[trigger] table[i]).0,
    ) by {
        lemma_runs_push(log, e, table[i].0);
    }
}

/// A result takes its test out of the table and leaves the others as they are.
proof fn lemma_track_result(
    log: Seq<TestEvent>,
    table: Seq<(TestDesc, u64)>,
    desc: TestDesc,
    result: TestResult,
    stdout: Vec<u8>,
)
    requires
        table_tracked(log, table),
    ensures
        table_tracked(log.push(TestEvent::TeResult(desc, result, stdout)), without(table, desc)),
{
    let e = TestEvent::TeResult(desc, result, stdout);
    let rest = without(table, desc);
    lemma_without_distinct(table, desc);
    assert forall|i: int| 0 <= i < rest.len() implies runs_in_time(
        log.push(e),
        (#[trigger] rest[i]).0,
    ) by {
        lemma_runs_push(log, e, rest[i].0);
        lemma_without_members(table, desc, i);
        let k = choose|k: int| 0 <= k < table.len() && table[k] == rest[i];
        assert(runs_in_time(log, table[k].0));
    }
}

/// The timeouts of the tests whose deadline has passed say nothing of a
/// test that is none of them.
proof fn lemma_harvest_keeps(
    log: Seq<TestEvent>,
    table: Seq<(TestDesc, u64)>,
    now: u64,
    d: TestDesc,
)
    requires
        forall|j: int|
            0 <= j < table.len() && (#[trigger] table[j]).1 <= now ==> !table[j].0.same(&d),
    ensures
        runs_in_time(log + timeouts(expired(table, now)), d) == runs_in_time(log, d),
    decreases table.len(),
{
    if table.len() == 0 {
        assert(log + timeouts(expired(table, now)) =~= log);
    } else {
        let dl = table.drop_last();
        assert forall|j: int| 0 <= j < dl.len() && (#[trigger] dl[j]).1 <= now implies !dl[j].0.same(
            &d,
        ) by {
            assert(dl[j] == table[j]);
        }
        lemma_harvest_keeps(log, dl, now, d);
        if table.last().1 <= now {
            let prev = log + timeouts(expired(dl, now));
            let e = TestEvent::TeTimeout(table.last().0);
            assert(log + timeouts(expired(table, now)) =~= prev.push(e));
            assert(table[table.len() - 1] == table.last());
            lemma_runs_push(prev, e, d);
        }
    }
}

/// The timeouts of the tests whose deadline has passed stand in their turn,
/// and add no start and no result to the log.
proof fn lemma_harvest_log(log: Seq<TestEvent>, table: Seq<(TestDesc, u64)>, now: u64)
    requires
        has_header(log),
        timeouts_in_turn(log),
        table_tracked(log, table),
    ensures
        has_header(log + timeouts(expired(table, now))),
        (log + timeouts(expired(table, now)))[1] == log[1],
        timeouts_in_turn(log + timeouts(expired(table, now))),
        wait_descs(log + timeouts(expired(table, now))) == wait_descs(log),
        result_descs(log + timeouts(expired(table, now))) == result_descs(log),
    decreases table.len(),
{
    if table.len() == 0 {
        assert(log + timeouts(expired(table, now)) =~= log);
    } else {
        let dl = table.drop_last();
        assert(table_tracked(log, dl)) by {
            assert forall|i: int, j: int| 0 <= i < j < dl.len() implies !dl[i].0.same(
                &dl[j].0,
            ) by {
                assert(!table[i].0.same(&table[j].0));
            }
            assert forall|i: int| 0 <= i < dl.len() implies runs_in_time(
                log,
                (#[trigger] dl[i]).0,
            ) by {
                assert(dl[i] == table[i]);
            }
        }
        lemma_harvest_log(log, dl, now);
        if table.last().1 <= now {
            let prev = log + timeouts(expired(dl, now));
            let e = TestEvent::TeTimeout(table.last().0);
            assert(log + timeouts(expired(table, now)) =~= prev.push(e));
            assert forall|j: int| 0 <= j < dl.len() && (#[trigger] dl[j]).1 <= now implies !dl[j].0.same(
                &table.last().0,
            ) by {
                assert(!table[j].0.same(&table[table.len() - 1].0));
            }
            lemma_harvest_keeps(log, dl, now, table.last().0);
            assert(runs_in_time(log, table[table.len() - 1].0));
            lemma_in_turn_push(prev, e);
            lemma_header_push(prev, e);
            lemma_descs_push(prev, e);
        }
    }
}

/// The tests whose deadline has not passed stay tracked when the others
/// are reported as slow.
proof fn lemma_harvest_table(log: Seq<TestEvent>, table: Seq<(TestDesc, u64)>, now: u64)
    requires
        table_tracked(log, table),
    ensures
        table_tracked(log + timeouts(expired(table, now)), alive(table, now)),
{
    let rest = alive(table, now);
    lemma_alive_distinct(table, now);
    assert forall|i: int| 0 <= i < rest.len() implies runs_in_time(
        log + timeouts(expired(table, now)),
        (#[trigger] rest[i]).0,
    ) by {
        lemma_alive_members(table, now, i);
        let k = choose|k: int| 0 <= k < table.len() && table[k] == rest[i];
        assert forall|j: int| 0 <= j < table.len() && (#[trigger] table[j]).1 <= now implies !table[j].0.same(
            &rest[i].0,
        ) by {
            if j < k {
                assert(!table[j].0.same(&table[k].0));
            } else {
                assert(!table[k].0.same(&table[j].0));
            }
        }
        lemma_harvest_keeps(log, table, now, rest[i].0);
        assert(runs_in_time(log, table[k].0));
    }
}

proof fn lemma_tests_benches_split(s: Seq<TestDescAndFn>)
    ensures
        tests_of(s).len() + benches_of(s).len() == s.len(),
        forall|i: int| 0 <= i < tests_of(s).len() ==> !(#[trigger] tests_of(s)[i]).testfn.is_bench(),
    decreases s.len(),
{
    if s.len() > 0 {
        lemma_tests_benches_split(s.drop_last());
    }
}

/// Every test among the entries is one of the entries, and so is every benchmark.
proof fn lemma_parts_members(s: Seq<TestDescAndFn>)
    ensures
        forall|i: int| 0 <= i < tests_of(s).len() ==> s.contains(#[trigger] tests_of(s)[i]),
        forall|i: int| 0 <= i < benches_of(s).len() ==> s.contains(#[trigger] benches_of(s)[i]),
    decreases s.len(),
{
    if s.len() > 0 {
        let d = s.drop_last();
        lemma_parts_members(d);
        assert forall|i: int| 0 <= i < tests_of(s).len() implies s.contains(
            #[trigger] tests_of(s)[i],
        ) by {
            if i < tests_of(d).len() {
                let e = tests_of(d)[i];
                assert(d.contains(e));
                let k = choose|k: int| 0 <= k < d.len() && d[k] == e;
                assert(s[k] == e);
            } else {
                assert(s[s.len() - 1] == s.last());
            }
        }
        assert forall|i: int| 0 <= i < benches_of(s).len() implies s.contains(
            #[trigger] benches_of(s)[i],
        ) by {
            if i < benches_of(d).len() {
                let e = benches_of(d)[i];
                assert(d.contains(e));
                let k = choose|k: int| 0 <= k < d.len() && d[k] == e;
                assert(s[k] == e);
            } else {
                assert(s[s.len() - 1] == s.last());
            }
        }
    }
}

/// The tests among entries that are in the order of their names are in that
/// order, and so are the benchmarks.
proof fn lemma_parts_in_order(s: Seq<TestDescAndFn>)
    requires
        names_sorted(descs_of(s)),
    ensures
        names_sorted(descs_of(tests_of(s))),
        names_sorted(descs_of(benches_of(s))),
    decreases s.len(),
{
    if s.len() > 0 {
        let d = s.drop_last();
        assert forall|i: int, j: int| 0 <= i < j < d.len() implies bytes_le(
            descs_of(d)[i].name.bytes(),
            descs_of(d)[j].name.bytes(),
        ) by {
            assert(bytes_le(descs_of(s)[i].name.bytes(), descs_of(s)[j].name.bytes()));
        }
        lemma_parts_in_order(d);
        lemma_parts_members(d);
        let t = tests_of(s);
        assert forall|i: int, j: int| 0 <= i < j < t.len() implies bytes_le(
            descs_of(t)[i].name.bytes(),
            descs_of(t)[j].name.bytes(),
        ) by {
            if j < tests_of(d).len() {
                assert(bytes_le(
                    descs_of(tests_of(d))[i].name.bytes(),
                    descs_of(tests_of(d))[j].name.bytes(),
                ));
            } else {
                let e = tests_of(d)[i];
                assert(d.contains(e));
                let k = choose|k: int| 0 <= k < d.len() && d[k] == e;
                assert(bytes_le(
                    descs_of(s)[k].name.bytes(),
                    descs_of(s)[s.len() - 1].name.bytes(),
                ));
            }
        }
        let b = benches_of(s);
        assert forall|i: int, j: int| 0 <= i < j < b.len() implies bytes_le(
            descs_of(b)[i].name.bytes(),
            descs_of(b)[j].name.bytes(),
        ) by {
            if j < benches_of(d).len() {
                assert(bytes_le(
                    descs_of(benches_of(d))[i].name.bytes(),
                    descs_of(benches_of(d))[j].name.bytes(),
                ));
            } else {
                let e = benches_of(d)[i];
                assert(d.contains(e));
                let k = choose|k: int| 0 <= k < d.len() && d[k] == e;
                assert(bytes_le(
                    descs_of(s)[k].name.bytes(),
                    descs_of(s)[s.len() - 1].name.bytes(),
                ));
            }
        }
    }
}

/// What the filter hands back stays in the order of its names when it is
/// prepared for the run, and so do its tests and its benchmarks.
proof fn lemma_parts_sorted(filtered: Seq<TestDescAndFn>, ready: Seq<TestDescAndFn>)
    requires
        sorted_by_name(filtered),
        ready.len() == filtered.len(),
        forall|i: int|
            0 <= i < filtered.len() ==> (#[trigger] ready[i]).desc.name.text()
                == filtered[i].desc.name.text(),
    ensures
        names_sorted(descs_of(ready)),
        names_sorted(descs_of(tests_of(ready))),
        names_sorted(descs_of(benches_of(ready))),
{
    assert forall|i: int, j: int| 0 <= i < j < ready.len() implies bytes_le(
        descs_of(ready)[i].name.bytes(),
        descs_of(ready)[j].name.bytes(),
    ) by {
        assert(crate::filter::name_le(&filtered[i], &filtered[j]));
        assert(ready[i].desc.name.text() == filtered[i].desc.name.text());
        assert(ready[j].desc.name.text() == filtered[j].desc.name.text());
    }
    lemma_parts_in_order(ready);
}

/// Splits the entries into the tests and the benchmarks, each in their order.
fn partition(entries: Vec<TestDescAndFn>) -> (r: (Vec<TestDescAndFn>, Vec<TestDescAndFn>))
    ensures
        r.0@ == tests_of(entries@),
        r.1@ == benches_of(entries@),
{
    let ghost all = entries@;
    let mut pending = reversed(entries);
    let mut tests: Vec<TestDescAndFn> = Vec::new();
    let mut benches: Vec<TestDescAndFn> = Vec::new();
    let ghost mut done: int = 0;
    while pending.len() > 0
        invariant
            0 <= done <= all.len(),
            pending@.len() == all.len() - done,
            forall|i: int| 0 <= i < pending@.len() ==> pending@[i] == all[all.len() - 1 - i],
            tests@ == tests_of(all.take(done)),
            benches@ == benches_of(all.take(done)),
        decreases pending.len(),
    {
        let e = pending.pop().unwrap();
        proof {
            assert(all.take(done + 1).drop_last() =~= all.take(done));
            assert(all.take(done + 1).last() == e);
        }
        let bench = match &e.testfn {
            TestFn::StaticBenchFn(_) | TestFn::DynBenchFn(_) => true,
            _ => false,
        };
        if bench {
            benches.push(e);
        } else {
            tests.push(e);
        }
        proof {
            done = done + 1;
        }
    }
    assert(all.take(done) =~= all);
    (tests, benches)
}

/// Gives each entry's name the padding of what the entry is.
fn align_names(entries: Vec<TestDescAndFn>) -> (r: Vec<TestDescAndFn>)
    ensures
        r@.len() == entries@.len(),
        forall|i: int|
            0 <= i < entries@.len() ==> {
                &&& (#[trigger] r@[i]).testfn == entries@[i].testfn
                &&& r@[i].desc.name is AlignedTestName
                &&& r@[i].desc.name.text() == entries@[i].desc.name.text()
                &&& r@[i].desc.name.spec_padding() == entries@[i].testfn.spec_padding()
                &&& r@[i].desc.ignore == entries@[i].desc.ignore
                &&& r@[i].desc.should_panic == entries@[i].desc.should_panic
                &&& r@[i].desc.allow_fail == entries@[i].desc.allow_fail
            },
{
    let ghost all = entries@;
    let mut pending = reversed(entries);
    let mut out: Vec<TestDescAndFn> = Vec::new();
    while pending.len() > 0
        invariant
            out@.len() + pending@.len() == all.len(),
            forall|i: int| 0 <= i < pending@.len() ==> pending@[i] == all[all.len() - 1 - i],
            forall|i: int|
                0 <= i < out@.len() ==> {
                    &&& (#[trigger] out@[i]).testfn == all[i].testfn
                    &&& out@[i].desc.name is AlignedTestName
                    &&& out@[i].desc.name.text() == all[i].desc.name.text()
                    &&& out@[i].desc.name.spec_padding() == all[i].testfn.spec_padding()
                    &&& out@[i].desc.ignore == all[i].desc.ignore
                    &&& out@[i].desc.should_panic == all[i].desc.should_panic
                    &&& out@[i].desc.allow_fail == all[i].desc.allow_fail
                },
        decreases pending.len(),
    {
        let e = pending.pop().unwrap();
        let TestDescAndFn { desc, testfn } = e;
        let name = desc.name.with_padding(testfn.padding());
        let ghost before = out@;
        out.push(
            TestDescAndFn {
                desc: TestDesc {
                    name,
                    ignore: desc.ignore,
                    should_panic: desc.should_panic,
                    allow_fail: desc.allow_fail,
                },
                testfn,
            },
        );
        assert forall|i: int| 0 <= i < before.len() implies out@[i] == before[i] by {}
    }
    out
}

/// Copies of the descriptors of the entries, in their order.
fn clone_descs(entries: &Vec<TestDescAndFn>) -> (r: Vec<TestDesc>)
    ensures
        r@ == descs_of(entries@),
{
    let mut out: Vec<TestDesc> = Vec::new();
    let mut i: usize = 0;
    while i < entries.len()
        invariant
            i <= entries.len(),
            out@.len() == i,
            forall|k: int| 0 <= k < i ==> out@[k] == entries@[k].desc,
        decreases entries.len() - i,
    {
        out.push(entries[i].desc.clone());
        i += 1;
    }
    assert(out@ =~= descs_of(entries@));
    out
}

/// Sets up a run of `tests` under `opts`, with `concurrency` entries at a
/// time. The events that come back open the run: the number of entries that
/// the filter took out, then the descriptors of the others.
pub fn run_tests(opts: &TestOpts, tests: Vec<TestDescAndFn>, concurrency: usize) -> (r: (
    RunLoop,
    Vec<TestEvent>,
))
    requires
        concurrency >= 1,
    ensures
        r.0.wf(),
        r.0.log() == r.1@,
        r.0.limit() == concurrency,
        r.0.forces_ignore() == !opts.run_tests,
        r.0.in_flight() == 0,
        r.0.deadlines().len() == 0,
        r.1@.len() == 2,
        r.1@[0] == TestEvent::TeFilteredOut(
            (tests@.len() - filter_spec(opts, tests@).len()) as usize,
        ),
        !r.0.measuring(),
        exists|ready: Seq<TestDescAndFn>|
            {
                &&& prepared(opts.bench_benchmarks, filter_spec(opts, tests@), ready)
                &&& r.1@[1] matches TestEvent::TeFiltered(descs) && descs@ == descs_of(ready)
                &&& r.0.tests_queued() == tests_of(ready)
                &&& r.0.benches_queued() == benches_of(ready)
            },
        r.0.schedule() == descs_of(r.0.tests_queued()) + descs_of(r.0.benches_queued()),
        r.0.test_count() == r.0.tests_queued().len(),
{
    let tests_len = tests.len();
    let ghost given = tests@;
    let mut filtered_tests = filter_tests(opts, tests);
    let ghost filtered = filtered_tests@;
    if !opts.bench_benchmarks {
        filtered_tests = convert_benchmarks_to_tests(filtered_tests);
    }
    let ghost plain = filtered_tests@;
    let filtered_tests = align_names(filtered_tests);
    let ghost ready = filtered_tests@;
    proof {
        assert(prepared(opts.bench_benchmarks, filtered, ready)) by {
            assert forall|i: int| 0 <= i < filtered.len() implies {
                &&& (#[trigger] ready[i]).desc.name is AlignedTestName
                &&& ready[i].desc.name.text() == filtered[i].desc.name.text()
                &&& ready[i].desc.name.spec_padding() == ready[i].testfn.spec_padding()
                &&& ready[i].desc.ignore == filtered[i].desc.ignore
                &&& ready[i].desc.should_panic == filtered[i].desc.should_panic
                &&& ready[i].desc.allow_fail == filtered[i].desc.allow_fail
                &&& ready[i].testfn.is_bench() == (opts.bench_benchmarks
                    && filtered[i].testfn.is_bench())
                &&& ready[i].testfn.is_bench() == filtered[i].testfn.is_bench()
                    ==> ready[i].testfn == filtered[i].testfn
            } by {
                assert(ready[i].testfn == plain[i].testfn);
                if !opts.bench_benchmarks {
                    assert(converted(filtered, plain));
                    assert(plain[i].desc == filtered[i].desc);
                }
            }
        }
    }

    let filtered_out = tests_len - filtered_tests.len();
    let filtered_descs = clone_descs(&filtered_tests);
    let mut events: Vec<TestEvent> = Vec::new();
    events.push(TestEvent::TeFilteredOut(filtered_out));
    events.push(TestEvent::TeFiltered(filtered_descs));

    let (tests_only, benches_only) = partition(filtered_tests);
    let ghost schedule = descs_of(tests_only@) + descs_of(benches_only@);
    let remaining = reversed(tests_only);
    let benches = reversed(benches_only);
    let rl = RunLoop {
        remaining,
        benches,
        running: TimeoutTable::new(),
        pending: 0,
        concurrency,
        force_ignore: !opts.run_tests,
        benching: false,
        log: Ghost(events@),
        schedule: Ghost(schedule),
        test_count: Ghost(tests_only@.len() as int),
    };
    proof {
        lemma_tests_benches_split(ready);
        lemma_parts_sorted(filtered, ready);
        assert(schedule.take(tests_only@.len() as int) =~= descs_of(tests_only@));
        assert(schedule.skip(tests_only@.len() as int) =~= descs_of(benches_only@));
        assert(rl.tests_queued() =~= tests_of(ready));
        assert(rl.benches_queued() =~= benches_of(ready));
        assert(rl.schedule().skip(0) =~= rl.schedule());
        assert(rl.schedule().take(0) =~= Seq::<TestDesc>::empty());
        let log = events@;
        assert(log.drop_last().drop_last() =~= Seq::<TestEvent>::empty());
        assert(wait_descs(log.drop_last().drop_last()) =~= Seq::<TestDesc>::empty());
        assert(timeouts_in_turn(log));
        assert(wait_descs(log.drop_last()) =~= Seq::<TestDesc>::empty());
        assert(wait_descs(log) =~= Seq::<TestDesc>::empty());
        assert(result_descs(log.drop_last().drop_last()) =~= Seq::<TestDesc>::empty());
        assert(result_descs(log.drop_last()) =~= Seq::<TestDesc>::empty());
        assert(result_descs(log) =~= Seq::<TestDesc>::empty());
    }
    (rl, events)
}

impl RunLoop {
    /// Decides what the caller does next. `now` is the time on a clock that
    /// does not go back, in nanoseconds.
    ///
    /// A test starts as long as fewer than the limit are in flight. When
    /// none can start and some are in flight, the caller waits for a result.
    /// When the tests are through, the benchmarks run, one at a time.
    pub fn next(&mut self, now: u64) -> (step: Step)
        requires
            old(self).wf(),
        ensures
            final(self).wf(),
            final(self).limit() == old(self).limit(),
            final(self).forces_ignore() == old(self).forces_ignore(),
            final(self).schedule() == old(self).schedule(),
            final(self).test_count() == old(self).test_count(),
            old(self).tests_queued().len() > 0 && old(self).in_flight() < old(self).limit()
                ==> (step matches Step::Launch { event, test, force_ignore, concurrency } && {
                &&& test == old(self).tests_queued()[0]
                &&& event == TestEvent::TeWait(test.desc)
                &&& force_ignore == old(self).forces_ignore()
                &&& concurrency == if old(self).limit() == 1 {
                    Concurrent::No
                } else {
                    Concurrent::Yes
                }
                &&& final(self).tests_queued() == old(self).tests_queued().skip(1)
                &&& final(self).benches_queued() == old(self).benches_queued()
                &&& final(self).in_flight() == old(self).in_flight() + 1
                &&& final(self).measuring() == old(self).measuring()
                &&& final(self).log() == old(self).log().push(event)
                &&& final(self).deadlines() == if old(self).limit() == 1 {
                    old(self).deadlines()
                } else {
                    without(old(self).deadlines(), test.desc).push((test.desc, deadline_at(now)))
                }
            }),
            !(old(self).tests_queued().len() > 0 && old(self).in_flight() < old(self).limit())
                && old(self).in_flight() > 0 ==> (step matches Step::Receive { timeout } && {
                &&& timeout == if old(self).measuring() {
                    None
                } else {
                    next_timeout(old(self).deadlines(), now)
                }
                &&& *final(self) == *old(self)
            }),
            old(self).tests_queued().len() == 0 && old(self).in_flight() == 0
                && old(self).benches_queued().len() > 0 ==> (step matches Step::Launch {
                event,
                test,
                force_ignore,
                concurrency,
            } && {
                &&& test == old(self).benches_queued()[0]
                &&& event == TestEvent::TeWait(test.desc)
                &&& !force_ignore
                &&& concurrency is No
                &&& final(self).tests_queued() == old(self).tests_queued()
                &&& final(self).benches_queued() == old(self).benches_queued().skip(1)
                &&& final(self).in_flight() == 1
                &&& final(self).measuring()
                &&& final(self).log() == old(self).log().push(event)
                &&& final(self).deadlines() == old(self).deadlines()
            }),
            old(self).is_done() ==> step is Done && *final(self) == *old(self),
    {
        if self.pending < self.concurrency && self.remaining.len() > 0 {
            let ghost queue = self.tests_queued();
            let ghost log = self.log@;
            let ghost table = self.running@;
            let test = self.remaining.pop().unwrap();
            let desc = test.desc.clone();
            let ghost event = TestEvent::TeWait(desc);
            let concurrency = if self.concurrency == 1 {
                proof {
                    lemma_track_start_plain(log, table, desc);
                }
                Concurrent::No
            } else {
                self.running.insert(test.desc.clone(), deadline_for(now));
                proof {
                    lemma_track_start(log, table, desc, deadline_at(now));
                }
                Concurrent::Yes
            };
            self.pending = self.pending + 1;
            self.log = Ghost(log.push(event));
            proof {
                assert(log.push(event).drop_last() =~= log);
                assert(test == queue[0]);
                assert(self.tests_queued() =~= queue.skip(1));
                lemma_descs_push(log, event);
                lemma_in_turn_push(log, event);
                lemma_header_push(log, event);
                let s = self.schedule@;
                let l = old(self).launched();
                assert(descs_of(queue)[0] == s.skip(l)[0]);
                assert(s.take(l).push(desc) =~= s.take(l + 1));
                assert(descs_of(self.tests_queued()) + descs_of(self.benches_queued()) =~= s.skip(
                    l + 1,
                )) by {
                    let a = descs_of(queue) + descs_of(old(self).benches_queued());
                    let b = descs_of(self.tests_queued()) + descs_of(self.benches_queued());
                    assert(b.len() == a.len() - 1);
                    assert forall|i: int| 0 <= i < b.len() implies b[i] == s.skip(l + 1)[i] by {
                        assert(b[i] == a[i + 1]);
                        assert(a[i + 1] == s.skip(l)[i + 1]);
                    }
                }
                if self.limit() == 1 {
                    assert(old(self).in_flight() == 0);
                }
            }
            return Step::Launch {
                event: TestEvent::TeWait(desc),
                test,
                force_ignore: self.force_ignore,
                concurrency,
            };
        }
        if self.pending > 0 {
            let timeout = if self.benching {
                None
            } else {
                self.running.next_timeout(now)
            };
            return Step::Receive { timeout };
        }
        if self.benches.len() > 0 {
            let ghost queue = self.benches_queued();
            let ghost log = self.log@;
            let test = self.benches.pop().unwrap();
            let desc = test.desc.clone();
            self.pending = 1;
            self.benching = true;
            let ghost event = TestEvent::TeWait(desc);
            self.log = Ghost(log.push(event));
            proof {
                assert(log.push(event).drop_last() =~= log);
                assert(test == queue[0]);
                assert(self.benches_queued() =~= queue.skip(1));
                lemma_descs_push(log, event);
                lemma_in_turn_push(log, event);
                lemma_header_push(log, event);
                lemma_track_start_plain(log, self.running@, desc);
                let s = self.schedule@;
                let l = old(self).launched();
                assert(self.tests_queued().len() == 0);
                assert((descs_of(old(self).tests_queued()) + descs_of(queue))[0] == s.skip(l)[0]);
                assert(s.take(l).push(desc) =~= s.take(l + 1));
                assert(descs_of(self.tests_queued()) + descs_of(self.benches_queued()) =~= s.skip(
                    l + 1,
                )) by {
                    let a = descs_of(old(self).tests_queued()) + descs_of(queue);
                    let b = descs_of(self.tests_queued()) + descs_of(self.benches_queued());
                    assert(b.len() == a.len() - 1);
                    assert forall|i: int| 0 <= i < b.len() implies b[i] == s.skip(l + 1)[i] by {
                        assert(b[i] == a[i + 1]);
                        assert(a[i + 1] == s.skip(l)[i + 1]);
                    }
                }
            }
            return Step::Launch {
                event: TestEvent::TeWait(desc),
                test,
                force_ignore: false,
                concurrency: Concurrent::No,
            };
        }
        Step::Done
    }

    /// Takes the result of an entry that was in flight, and hands back the
    /// event that reports it. The entry has no deadline any more.
    pub fn deliver(&mut self, msg: MonitorMsg) -> (event: TestEvent)
        requires
            old(self).wf(),
            old(self).in_flight() > 0,
        ensures
            final(self).wf(),
            event == TestEvent::TeResult(msg.0, msg.1, msg.2),
            final(self).log() == old(self).log().push(event),
            final(self).in_flight() == old(self).in_flight() - 1,
            final(self).deadlines() == without(old(self).deadlines(), msg.0),
            final(self).tests_queued() == old(self).tests_queued(),
            final(self).benches_queued() == old(self).benches_queued(),
            final(self).limit() == old(self).limit(),
            final(self).forces_ignore() == old(self).forces_ignore(),
            final(self).measuring() == old(self).measuring(),
            final(self).schedule() == old(self).schedule(),
            final(self).test_count() == old(self).test_count(),
    {
        let (desc, result, stdout) = msg;
        let ghost log = self.log@;
        let ghost table = self.running@;
        self.running.remove(&desc);
        self.pending = self.pending - 1;
        let ghost event = TestEvent::TeResult(desc, result, stdout);
        self.log = Ghost(log.push(event));
        proof {
            assert(log.push(event).drop_last() =~= log);
            lemma_descs_push(log, event);
            lemma_in_turn_push(log, event);
            lemma_header_push(log, event);
            lemma_track_result(log, table, desc, result, stdout);
        }
        TestEvent::TeResult(desc, result, stdout)
    }

    /// Takes every test whose deadline has passed at `now` out of the table
    /// of deadlines, and hands back a `TeTimeout` event for each. The tests
    /// go on running, and their results are still to be delivered.
    pub fn harvest(&mut self, now: u64) -> (events: Vec<TestEvent>)
        requires
            old(self).wf(),
        ensures
            final(self).wf(),
            events@ == timeouts(expired(old(self).deadlines(), now)),
            final(self).deadlines() == alive(old(self).deadlines(), now),
            final(self).log() == old(self).log() + events@,
            final(self).in_flight() == old(self).in_flight(),
            final(self).tests_queued() == old(self).tests_queued(),
            final(self).benches_queued() == old(self).benches_queued(),
            final(self).limit() == old(self).limit(),
            final(self).forces_ignore() == old(self).forces_ignore(),
            final(self).measuring() == old(self).measuring(),
            final(self).schedule() == old(self).schedule(),
            final(self).test_count() == old(self).test_count(),
    {
        let ghost table = self.running@;
        let ghost log0 = self.log@;
        let slow = self.running.harvest(now);
        let ghost descs = slow@;
        let mut pending = reversed(slow);
        let mut events: Vec<TestEvent> = Vec::new();
        while pending.len() > 0
            invariant
                events@.len() + pending@.len() == descs.len(),
                forall|i: int| 0 <= i < pending@.len() ==> pending@[i] == descs[descs.len() - 1 - i],
                forall|i: int| 0 <= i < events@.len() ==> events@[i] == TestEvent::TeTimeout(descs[i]),
            decreases pending.len(),
        {
            let d = pending.pop().unwrap();
            events.push(TestEvent::TeTimeout(d));
        }
        assert(events@ =~= timeouts(descs));
        self.log = Ghost(log0 + events@);
        proof {
            lemma_harvest_log(log0, table, now);
            lemma_harvest_table(log0, table, now);
            if self.limit() == 1 {
                assert(events@.len() == 0);
                assert(log0 + events@ =~= log0);
            }
        }
        events
    }
}

impl RunLoop {
    /// When a run is over, every entry that the filter let through has had
    /// exactly one `TeWait` event, in the order in which the entries start,
    /// and there are as many `TeResult` events as entries.
    pub proof fn lemma_every_entry_once(&self)
        requires
            self.wf(),
            self.is_done(),
        ensures
            is_complete_run(self.log(), self.schedule()),
            wait_descs(self.log()) == self.schedule(),
            result_descs(self.log()).len() == self.schedule().len(),
    {
        assert(self.schedule().take(self.launched()) =~= self.schedule());
    }

    /// At every point of a run, no more entries are in flight than may run
    /// at a time. An entry is in flight from its start to its result, also
    /// after it has been reported as slow.
    pub proof fn lemma_bounded_parallelism(&self)
        requires
            self.wf(),
        ensures
            self.in_flight() <= self.limit(),
            result_descs(self.log()).len() + self.in_flight() == wait_descs(self.log()).len(),
    {
    }

    /// At every point of a run, every `TeTimeout` event stands behind the
    /// `TeWait` event of its entry, with no `TeResult` and no other
    /// `TeTimeout` event of that entry in between: an entry is reported as
    /// slow once at most, while it runs. The tests that have a deadline are
    /// those that run and have not been reported as slow.
    pub proof fn lemma_timeouts_in_turn(&self)
        requires
            self.wf(),
        ensures
            timeouts_in_turn(self.log()),
            forall|i: int|
                0 <= i < self.log().len() ==> (#[trigger] self.log()[i] matches TestEvent::TeTimeout(
                    d,
                ) ==> exists|k: int|
                    0 <= k < i && (#[trigger] self.log()[k] matches TestEvent::TeWait(x) && x.same(
                        &d,
                    ))),
            forall|i: int|
                0 <= i < self.deadlines().len() ==> runs_in_time(
                    self.log(),
                    (#[trigger] self.deadlines()[i]).0,
                ),
            distinct_keys(self.deadlines()),
    {
        let log = self.log();
        assert forall|i: int| 0 <= i < log.len() implies (#[trigger] log[i] matches TestEvent::TeTimeout(
            d,
        ) ==> exists|k: int|
            0 <= k < i && (#[trigger] log[k] matches TestEvent::TeWait(x) && x.same(&d))) by {
            if let TestEvent::TeTimeout(d) = log[i] {
                lemma_runs_has_started(log.take(i), d);
                let k = choose|k: int|
                    0 <= k < log.take(i).len() && (#[trigger] log.take(i)[k] matches TestEvent::TeWait(
                        x,
                    ) && x.same(&d));
                assert(log[k] == log.take(i)[k]);
            }
        }
    }

    /// Where every result is that of an entry that was in flight, and every
    /// entry that started has had its result, no test has a deadline any
    /// more: the table of deadlines is empty when such a run is over.
    pub proof fn lemma_no_deadline_left(&self)
        requires
            self.wf(),
            results_follow_starts(self.log()),
            all_answered(self.log()),
        ensures
            self.deadlines().len() == 0,
    {
        if self.deadlines().len() > 0 {
            let d = self.deadlines()[0].0;
            assert(runs_in_time(self.log(), d));
            lemma_running_is_unanswered(self.log(), d);
            assert(results_of(self.log(), d) == starts_of(self.log(), d));
        }
    }

    /// In a run of one entry at a time in which no benchmark is measured,
    /// and in which every result is that of the entry started before it, the
    /// results come in the order of the entries' names.
    ///
    /// Where benchmarks are measured they run behind the tests, each group in
    /// the order of its names.
    pub proof fn lemma_serial_results_in_order(&self)
        requires
            self.wf(),
            self.is_done(),
            self.limit() == 1,
            results_answer_waits(self.log()),
        ensures
            result_descs(self.log()) == self.schedule(),
            names_sorted(self.schedule().take(self.test_count())),
            names_sorted(self.schedule().skip(self.test_count())),
            self.test_count() == self.schedule().len() ==> names_sorted(
                result_descs(self.log()),
            ),
    {
        assert(self.schedule().take(self.launched()) =~= self.schedule());
        lemma_turns(self.log());
        if self.test_count() == self.schedule().len() {
            assert(self.schedule().take(self.test_count()) =~= self.schedule());
        }
    }
}

} // verus!
