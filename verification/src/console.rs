//! The state of a console run: what is counted and kept as the events come
//! in, and the lines that are written about it.
use vstd::prelude::*;
use vstd::string::*;

use crate::fmt::{decimal, fmt_thousands_sep, pad_left, push_decimal, right_aligned, thousands};
use crate::events::{has_header, is_complete_run, is_entry_event, result_descs};
use crate::run_loop::RunLoop;
use crate::stats::Summary;
use crate::text::{bytes_le, bytes_le_exec, lemma_bytes_le_refl, str_eq, texts, utf8};
use crate::types::{
    BenchSamples, ColorConfig, NamePadding, Options, Outcome, OutputFormat, TestDesc,
    TestDescAndFn, TestEvent, TestFn, TestOpts, TestResult,
};

verus! {

/// A measured value and the noise around it.
#[derive(Clone, Copy, PartialEq, Debug)]
pub struct Metric {
    pub value: u64,
    pub noise: u64,
}

impl Metric {
    /// A metric of this value and noise.
    pub fn new(value: u64, noise: u64) -> (r: Self)
        ensures
            r == (Metric { value, noise }),
    {
        Metric { value, noise }
    }
}

/// `key` with `m` in a list of metrics that is kept in the order of its
/// names: in place of the metric of that name, if there is one.
pub open spec fn put_metric(s: Seq<(Seq<char>, Metric)>, key: Seq<char>, m: Metric) -> Seq<
    (Seq<char>, Metric),
>
    decreases s.len(),
{
    if s.len() == 0 {
        seq![(key, m)]
    } else if s.last().0 == key {
        s.drop_last().push((key, m))
    } else if bytes_le(utf8(s.last().0), utf8(key)) {
        s.push((key, m))
    } else {
        put_metric(s.drop_last(), key, m).push(s.last())
    }
}

/// The metric under `key`, if there is one.
pub open spec fn get_metric(s: Seq<(Seq<char>, Metric)>, key: Seq<char>) -> Option<Metric>
    decreases s.len(),
{
    if s.len() == 0 {
        None
    } else if s.last().0 == key {
        Some(s.last().1)
    } else {
        get_metric(s.drop_last(), key)
    }
}

/// A metric that is put under a name is found there, and the metrics under
/// other names stay as they were.
pub proof fn lemma_put_then_get(
    s: Seq<(Seq<char>, Metric)>,
    key: Seq<char>,
    m: Metric,
    other: Seq<char>,
)
    ensures
        get_metric(put_metric(s, key, m), key) == Some(m),
        other != key ==> get_metric(put_metric(s, key, m), other) == get_metric(s, other),
    decreases s.len(),
{
    if s.len() == 0 {
        assert(seq![(key, m)].drop_last() =~= s);
    } else if s.last().0 == key {
        assert(s.drop_last().push((key, m)).drop_last() =~= s.drop_last());
    } else if bytes_le(utf8(s.last().0), utf8(key)) {
        assert(s.push((key, m)).drop_last() =~= s);
    } else {
        lemma_put_then_get(s.drop_last(), key, m, other);
        assert(put_metric(s.drop_last(), key, m).push(s.last()).drop_last() =~= put_metric(
            s.drop_last(),
            key,
            m,
        ));
    }
}

/// The names of the metrics stand in ascending order, each once.
pub open spec fn ascending(s: Seq<(Seq<char>, Metric)>) -> bool {
    forall|i: int, j: int|
        #![trigger s[i], s[j]]
        0 <= i < j < s.len() ==> s[i].0 != s[j].0 && bytes_le(utf8(s[i].0), utf8(s[j].0))
}

/// Every metric of a list with one more is that one or a metric of the list.
proof fn lemma_put_members(s: Seq<(Seq<char>, Metric)>, key: Seq<char>, m: Metric, i: int)
    requires
        0 <= i < put_metric(s, key, m).len(),
    ensures
        put_metric(s, key, m)[i] == (key, m) || s.contains(put_metric(s, key, m)[i]),
    decreases s.len(),
{
    let r = put_metric(s, key, m);
    if s.len() == 0 {
    } else if s.last().0 == key {
        if i < s.len() - 1 {
            assert(s[i] == r[i]);
        }
    } else if bytes_le(utf8(s.last().0), utf8(key)) {
        if i < s.len() {
            assert(s[i] == r[i]);
        }
    } else {
        let q = put_metric(s.drop_last(), key, m);
        if i < q.len() {
            lemma_put_members(s.drop_last(), key, m, i);
            if q[i] != (key, m) {
                let k = choose|k: int| 0 <= k < s.drop_last().len() && s.drop_last()[k] == q[i];
                assert(s[k] == q[i]);
            }
        } else {
            assert(s[s.len() - 1] == s.last());
        }
    }
}

/// A list of metrics in the order of its names stays in that order when a
/// metric is put into it.
pub proof fn lemma_put_ascending(s: Seq<(Seq<char>, Metric)>, key: Seq<char>, m: Metric)
    requires
        ascending(s),
    ensures
        ascending(put_metric(s, key, m)),
    decreases s.len(),
{
    let r = put_metric(s, key, m);
    if s.len() == 0 {
    } else if s.last().0 == key {
        assert forall|i: int, j: int|
            #![trigger r[i], r[j]]
            0 <= i < j < r.len() implies r[i].0 != r[j].0 && bytes_le(utf8(r[i].0), utf8(r[j].0)) by {
            assert(s[i].0 != s[j].0 && bytes_le(utf8(s[i].0), utf8(s[j].0)));
        }
    } else if bytes_le(utf8(s.last().0), utf8(key)) {
        assert forall|i: int, j: int|
            #![trigger r[i], r[j]]
            0 <= i < j < r.len() implies r[i].0 != r[j].0 && bytes_le(utf8(r[i].0), utf8(r[j].0)) by {
            if j < s.len() {
                assert(s[i].0 != s[j].0 && bytes_le(utf8(s[i].0), utf8(s[j].0)));
            } else if i < s.len() - 1 {
                assert(s[i].0 != s[s.len() - 1].0 && bytes_le(
                    utf8(s[i].0),
                    utf8(s[s.len() - 1].0),
                ));
                crate::text::lemma_bytes_le_trans(utf8(s[i].0), utf8(s.last().0), utf8(key));
                if s[i].0 == key {
                    crate::text::lemma_bytes_le_antisym(utf8(s[i].0), utf8(s.last().0));
                    crate::text::lemma_utf8_injective(s[i].0, s.last().0);
                }
            }
        }
    } else {
        let d = s.drop_last();
        let q = put_metric(d, key, m);
        assert forall|i: int, j: int|
            #![trigger d[i], d[j]]
            0 <= i < j < d.len() implies d[i].0 != d[j].0 && bytes_le(utf8(d[i].0), utf8(d[j].0)) by {
            assert(s[i].0 != s[j].0 && bytes_le(utf8(s[i].0), utf8(s[j].0)));
        }
        lemma_put_ascending(d, key, m);
        crate::text::lemma_bytes_le_total(utf8(s.last().0), utf8(key));
        assert forall|i: int, j: int|
            #![trigger r[i], r[j]]
            0 <= i < j < r.len() implies r[i].0 != r[j].0 && bytes_le(utf8(r[i].0), utf8(r[j].0)) by {
            if j < q.len() {
                assert(q[i].0 != q[j].0 && bytes_le(utf8(q[i].0), utf8(q[j].0)));
            } else {
                lemma_put_members(d, key, m, i);
                if q[i] != (key, m) {
                    let k = choose|k: int| 0 <= k < d.len() && d[k] == q[i];
                    assert(s[k].0 != s[s.len() - 1].0 && bytes_le(
                        utf8(s[k].0),
                        utf8(s[s.len() - 1].0),
                    ));
                }
            }
        }
    }
}

proof fn lemma_put_at(s: Seq<(Seq<char>, Metric)>, key: Seq<char>, m: Metric, p: int)
    requires
        0 <= p <= s.len(),
        forall|j: int| p <= j < s.len() ==> !bytes_le(utf8(s[j].0), utf8(key)),
        p > 0 ==> bytes_le(utf8(s[p - 1].0), utf8(key)),
    ensures
        put_metric(s, key, m) == if p > 0 && s[p - 1].0 == key {
            s.update(p - 1, (key, m))
        } else {
            s.insert(p, (key, m))
        },
    decreases s.len(),
{
    if s.len() == 0 {
        assert(s.insert(p, (key, m)) =~= seq![(key, m)]);
    } else if p == s.len() {
        if s.last().0 == key {
            assert(s.drop_last().push((key, m)) =~= s.update(p - 1, (key, m)));
        } else {
            assert(s.insert(p, (key, m)) =~= s.push((key, m)));
        }
    } else {
        lemma_bytes_le_refl(utf8(key));
        lemma_put_at(s.drop_last(), key, m, p);
        if p > 0 && s[p - 1].0 == key {
            assert(s.drop_last().update(p - 1, (key, m)).push(s.last()) =~= s.update(
                p - 1,
                (key, m),
            ));
        } else {
            assert(s.drop_last().insert(p, (key, m)).push(s.last()) =~= s.insert(p, (key, m)));
        }
    }
}

/// The metrics of a run, by name, in the order of the names.
pub struct MetricMap {
    entries: Vec<(String, Metric)>,
}

/// One metric as text: its name, its value and its noise.
pub open spec fn metric_text(name: Seq<char>, m: Metric) -> Seq<char> {
    name + ": "@ + decimal(m.value as nat) + " (+/- "@ + decimal(m.noise as nat) + ")"@
}

/// The metrics as text, one after the other, with a comma and a space between two.
pub open spec fn metrics_text(s: Seq<(Seq<char>, Metric)>) -> Seq<char>
    decreases s.len(),
{
    if s.len() == 0 {
        Seq::empty()
    } else if s.len() == 1 {
        metric_text(s[0].0, s[0].1)
    } else {
        metrics_text(s.drop_last()) + ", "@ + metric_text(s.last().0, s.last().1)
    }
}

impl View for MetricMap {
    type V = Seq<(Seq<char>, Metric)>;

    closed spec fn view(&self) -> Seq<(Seq<char>, Metric)> {
        Seq::new(self.entries@.len(), |i: int| (self.entries@[i].0@, self.entries@[i].1))
    }
}

impl MetricMap {
    /// A map without a metric.
    pub fn new() -> (r: Self)
        ensures
            r@.len() == 0,
            ascending(r@),
    {
        MetricMap { entries: Vec::new() }
    }

    /// Insert a named `value` (+/- `noise`) metric into the map, in place of
    /// the metric of that name if there is one.
    pub fn insert_metric(&mut self, name: &str, value: u64, noise: u64)
        ensures
            final(self)@ == put_metric(old(self)@, name@, Metric { value, noise }),
            get_metric(final(self)@, name@) == Some(Metric { value, noise }),
            ascending(old(self)@) ==> ascending(final(self)@),
    {
        let m = Metric { value, noise };
        proof {
            lemma_put_then_get(self@, name@, m, name@);
            if ascending(self@) {
                lemma_put_ascending(self@, name@, m);
            }
        }
        let ghost before = self@;
        let mut p: usize = self.entries.len();
        while p > 0 && !bytes_le_exec(self.entries[p - 1].0.as_str().as_bytes(), name.as_bytes())
            invariant
                p <= self.entries@.len(),
                self@ == before,
                forall|j: int| p <= j < before.len() ==> !bytes_le(utf8(before[j].0), utf8(name@)),
            decreases p,
        {
            assert(before[p - 1].0 == self.entries@[p - 1].0@);
            p -= 1;
        }
        proof {
            if p > 0 {
                assert(before[p - 1].0 == self.entries@[p - 1].0@);
            }
            lemma_put_at(before, name@, m, p as int);
        }
        if p > 0 && str_eq(self.entries[p - 1].0.as_str(), name) {
            self.entries.set(p - 1, (name.to_owned(), m));
            assert(self@ =~= before.update(p - 1, (name@, m)));
        } else {
            self.entries.insert(p, (name.to_owned(), m));
            assert(self@ =~= before.insert(p as int, (name@, m)));
        }
    }

    /// The metrics as text, one after the other, with a comma and a space between two.
    pub fn fmt_metrics(&self) -> (r: String)
        ensures
            r@ == metrics_text(self@),
    {
        let mut out = String::new();
        let mut i: usize = 0;
        while i < self.entries.len()
            invariant
                i <= self.entries@.len(),
                out@ == metrics_text(self@.take(i as int)),
            decreases self.entries.len() - i,
        {
            let ghost prev = out@;
            if i > 0 {
                out.append(", ");
            }
            out.append(self.entries[i].0.as_str());
            out.append(": ");
            push_decimal(&mut out, self.entries[i].1.value as u128);
            out.append(" (+/- ");
            push_decimal(&mut out, self.entries[i].1.noise as u128);
            out.append(")");
            proof {
                let s = self@.take(i + 1);
                assert(s.drop_last() =~= self@.take(i as int));
                assert(s.last() == self@[i as int]);
                assert(self@[i as int] == (self.entries@[i as int].0@, self.entries@[i as int].1));
                if i == 0 {
                    assert(prev =~= Seq::<char>::empty());
                    assert(s[0] == s.last());
                    assert(out@ =~= metric_text(s[0].0, s[0].1));
                } else {
                    assert(out@ =~= prev + ", "@ + metric_text(s.last().0, s.last().1));
                }
            }
            i += 1;
        }
        assert(self@.take(i as int) =~= self@);
        out
    }
}

/// What a run has counted.
pub struct Counts {
    pub total: nat,
    pub passed: nat,
    pub failed: nat,
    pub ignored: nat,
    pub allowed_fail: nat,
    pub filtered_out: nat,
    pub measured: nat,
}

impl Counts {
    /// The counts of a run of which nothing is known yet.
    pub open spec fn zero() -> Counts {
        Counts {
            total: 0,
            passed: 0,
            failed: 0,
            ignored: 0,
            allowed_fail: 0,
            filtered_out: 0,
            measured: 0,
        }
    }

    /// The entries whose result has been counted.
    pub open spec fn counted(self) -> nat {
        self.passed + self.failed + self.ignored + self.measured + self.allowed_fail
    }

    /// The counts after an outcome: one more under what the outcome is.
    pub open spec fn after_outcome(self, o: Outcome) -> Counts {
        match o {
            Outcome::Passed => Counts { passed: self.passed + 1, ..self },
            Outcome::Ignored => Counts { ignored: self.ignored + 1, ..self },
            Outcome::AllowedFail => Counts { allowed_fail: self.allowed_fail + 1, ..self },
            Outcome::Bench(_) => Counts { measured: self.measured + 1, ..self },
            Outcome::Failed => Counts { failed: self.failed + 1, ..self },
            Outcome::FailedMsg(_) => Counts { failed: self.failed + 1, ..self },
        }
    }

    /// The counts after an event.
    pub open spec fn after(self, e: TestEvent) -> Counts {
        match e {
            TestEvent::TeFiltered(descs) => Counts { total: descs@.len(), ..self },
            TestEvent::TeFilteredOut(n) => Counts { filtered_out: n as nat, ..self },
            TestEvent::TeWait(_) => self,
            TestEvent::TeTimeout(_) => self,
            TestEvent::TeResult(_, result, _) => self.after_outcome(result@),
        }
    }

    /// The counts after a series of events.
    pub open spec fn replay(self, events: Seq<TestEvent>) -> Counts
        decreases events.len(),
    {
        if events.len() == 0 {
            self
        } else {
            self.replay(events.drop_last()).after(events.last())
        }
    }
}

proof fn lemma_replay_header(log: Seq<TestEvent>)
    requires
        has_header(log),
    ensures
        Counts::zero().replay(log).total == log[1]->TeFiltered_0@.len(),
        Counts::zero().replay(log).counted() == result_descs(log).len(),
    decreases log.len(),
{
    reveal_with_fuel(Counts::replay, 3);
    reveal_with_fuel(result_descs, 3);
    if log.len() == 2 {
        assert(log.drop_last().drop_last() =~= Seq::<TestEvent>::empty());
        assert(log.drop_last().last() == log[0]);
        assert(log.last() == log[1]);
    } else {
        let d = log.drop_last();
        assert(d[0] == log[0]);
        assert(d[1] == log[1]);
        assert forall|i: int| 2 <= i < d.len() implies is_entry_event(#[trigger] d[i]) by {
            assert(d[i] == log[i]);
        }
        lemma_replay_header(d);
        assert(is_entry_event(log[log.len() - 1]));
    }
}

/// The counts of a whole run add up: as many entries have passed, failed,
/// been ignored, been allowed to fail or been measured as the run has in all.
pub proof fn lemma_counts_add_up(log: Seq<TestEvent>, schedule: Seq<TestDesc>)
    requires
        is_complete_run(log, schedule),
    ensures
        ({
            let c = Counts::zero().replay(log);
            c.passed + c.failed + c.ignored + c.allowed_fail + c.measured == c.total
        }),
{
    lemma_replay_header(log);
}

/// The counts of every run add up: when a run is over, as many entries have
/// passed, failed, been ignored, been allowed to fail or been measured as the
/// run has in all, and that is every entry that the filter let through.
pub proof fn lemma_run_counts_add_up(run: &RunLoop)
    requires
        run.wf(),
        run.is_done(),
    ensures
        ({
            let c = Counts::zero().replay(run.log());
            &&& c.passed + c.failed + c.ignored + c.allowed_fail + c.measured == c.total
            &&& c.total == run.schedule().len()
        }),
{
    run.lemma_every_entry_once();
    lemma_replay_header(run.log());
}

/// The noise of a measurement: how far its least and its greatest sample are apart.
pub open spec fn spread(summ: Summary) -> u64 {
    if summ.max >= summ.min {
        (summ.max - summ.min) as u64
    } else {
        0
    }
}

/// The text that is kept with a failure that has a message.
pub open spec fn failure_note(msg: Seq<char>) -> Seq<u8> {
    utf8("note: "@ + msg)
}

/// The state of a console run.
pub struct ConsoleTestState {
    pub total: usize,
    pub passed: usize,
    pub failed: usize,
    pub ignored: usize,
    pub allowed_fail: usize,
    pub filtered_out: usize,
    pub measured: usize,
    pub metrics: MetricMap,
    pub failures: Vec<(TestDesc, Vec<u8>)>,
    pub not_failures: Vec<(TestDesc, Vec<u8>)>,
    pub options: Options,
}

impl ConsoleTestState {
    /// What the state has counted.
    pub open spec fn counts(&self) -> Counts {
        Counts {
            total: self.total as nat,
            passed: self.passed as nat,
            failed: self.failed as nat,
            ignored: self.ignored as nat,
            allowed_fail: self.allowed_fail as nat,
            filtered_out: self.filtered_out as nat,
            measured: self.measured as nat,
        }
    }

    /// The state of a run of which nothing is known yet.
    pub fn new(opts: &TestOpts) -> (r: Self)
        ensures
            r.counts() == Counts::zero(),
            r.metrics@.len() == 0,
            r.failures@.len() == 0,
            r.not_failures@.len() == 0,
            r.options == opts.options,
    {
        ConsoleTestState {
            total: 0,
            passed: 0,
            failed: 0,
            ignored: 0,
            allowed_fail: 0,
            filtered_out: 0,
            measured: 0,
            metrics: MetricMap::new(),
            failures: Vec::new(),
            not_failures: Vec::new(),
            options: opts.options,
        }
    }

    /// Whether the run is a success: whether no entry has failed.
    pub fn run_succeeded(&self) -> (r: bool)
        ensures
            r == (self.failed == 0),
    {
        self.failed == 0
    }

    /// The entries whose result has been counted.
    pub fn current_test_count(&self) -> (r: usize)
        requires
            self.counts().counted() <= usize::MAX,
        ensures
            r == self.counts().counted(),
    {
        self.passed + self.failed + self.ignored + self.measured + self.allowed_fail
    }

    /// Takes an event of the run into the state.
    ///
    /// A result is counted under what it is. A test that passed is kept with
    /// what it printed, and so is one that failed, with its message behind
    /// what it printed if it has one. A measurement goes to the metrics under
    /// the entry's name, with the median as its value and the spread of the
    /// samples as its noise.
    pub fn on_event(&mut self, event: TestEvent)
        requires
            event is TeResult ==> old(self).counts().counted() < usize::MAX,
        ensures
            final(self).counts() == old(self).counts().after(event),
            final(self).options == old(self).options,
            final(self).metrics@ == (match event {
                TestEvent::TeResult(test, TestResult::TrBench(bs), _) => put_metric(
                    old(self).metrics@,
                    test.name.text(),
                    Metric { value: bs.ns_iter_summ.median, noise: spread(bs.ns_iter_summ) },
                ),
                _ => old(self).metrics@,
            }),
            final(self).not_failures@ == (match event {
                TestEvent::TeResult(test, TestResult::TrOk, stdout) => old(
                    self,
                ).not_failures@.push((test, stdout)),
                _ => old(self).not_failures@,
            }),
            match event {
                TestEvent::TeResult(test, TestResult::TrFailed, stdout) => final(self).failures@
                    == old(self).failures@.push((test, stdout)),
                TestEvent::TeResult(test, TestResult::TrFailedMsg(msg), stdout) => {
                    &&& final(self).failures@.len() == old(self).failures@.len() + 1
                    &&& final(self).failures@.drop_last() == old(self).failures@
                    &&& final(self).failures@.last().0 == test
                    &&& final(self).failures@.last().1@ == stdout@ + failure_note(msg@)
                },
                _ => final(self).failures@ == old(self).failures@,
            },
    {
        match event {
            TestEvent::TeFiltered(filtered_tests) => {
                self.total = filtered_tests.len();
            },
            TestEvent::TeFilteredOut(filtered_out) => {
                self.filtered_out = filtered_out;
            },
            TestEvent::TeWait(_) => {},
            TestEvent::TeTimeout(_) => {},
            TestEvent::TeResult(test, result, stdout) => {
                match result {
                    TestResult::TrOk => {
                        self.passed = self.passed + 1;
                        self.not_failures.push((test, stdout));
                    },
                    TestResult::TrIgnored => {
                        self.ignored = self.ignored + 1;
                    },
                    TestResult::TrAllowedFail => {
                        self.allowed_fail = self.allowed_fail + 1;
                    },
                    TestResult::TrBench(bs) => {
                        let noise: u64 = if bs.ns_iter_summ.max >= bs.ns_iter_summ.min {
                            bs.ns_iter_summ.max - bs.ns_iter_summ.min
                        } else {
                            0
                        };
                        self.metrics.insert_metric(
                            test.name.as_slice(),
                            bs.ns_iter_summ.median,
                            noise,
                        );
                        self.measured = self.measured + 1;
                    },
                    TestResult::TrFailed => {
                        self.failed = self.failed + 1;
                        self.failures.push((test, stdout));
                    },
                    TestResult::TrFailedMsg(msg) => {
                        self.failed = self.failed + 1;
                        let mut stdout = stdout;
                        let mut note = String::from_str("note: ");
                        note.append(msg.as_str());
                        stdout.extend_from_slice(note.as_str().as_bytes());
                        let ghost before = self.failures@;
                        self.failures.push((test, stdout));
                        assert(self.failures@.drop_last() =~= before);
                    },
                }
            },
        }
    }
}

/// What is said of an outcome in the log file.
pub open spec fn outcome_text(o: Outcome) -> Seq<char> {
    match o {
        Outcome::Passed => "ok"@,
        Outcome::Failed => "failed"@,
        Outcome::FailedMsg(msg) => "failed: "@ + msg,
        Outcome::Ignored => "ignored"@,
        Outcome::AllowedFail => "failed (allowed)"@,
        Outcome::Bench(bs) => bench_samples_text(bs),
    }
}

/// A count that the machine's word holds, or the largest that it holds.
pub open spec fn word(n: u64) -> nat {
    if n > usize::MAX {
        usize::MAX as nat
    } else {
        n as nat
    }
}

/// What is said of a measurement: the median and the spread of the samples
/// in nanoseconds with thousands separators, the median aligned to the right
/// in eleven columns, and the megabytes a second if there are any.
pub open spec fn bench_samples_text(bs: BenchSamples) -> Seq<char> {
    let head = right_aligned(thousands(word(bs.ns_iter_summ.median), ','), 11)
        + " ns/iter (+/- "@ + thousands(word(spread(bs.ns_iter_summ)), ',') + ")"@;
    if bs.mb_s != 0 {
        head + " = "@ + decimal(bs.mb_s as nat) + " MB/s"@
    } else {
        head
    }
}

fn to_word(n: u64) -> (r: usize)
    ensures
        r == word(n),
{
    if n > usize::MAX as u64 {
        usize::MAX
    } else {
        n as usize
    }
}

/// What is said of a measurement.
pub fn fmt_bench_samples(bs: &BenchSamples) -> (r: String)
    ensures
        r@ == bench_samples_text(*bs),
{
    let median = to_word(bs.ns_iter_summ.median);
    let noise: u64 = if bs.ns_iter_summ.max >= bs.ns_iter_summ.min {
        bs.ns_iter_summ.max - bs.ns_iter_summ.min
    } else {
        0
    };
    let deviation = to_word(noise);
    let median_text = fmt_thousands_sep(median, ',');
    let mut output = pad_left(median_text.as_str(), 11);
    output.append(" ns/iter (+/- ");
    output.append(fmt_thousands_sep(deviation, ',').as_str());
    output.append(")");
    if bs.mb_s != 0 {
        output.append(" = ");
        push_decimal(&mut output, bs.mb_s as u128);
        output.append(" MB/s");
    }
    output
}

/// The line of the log file for a result: what the outcome is, a space, the
/// entry's name, and a line feed.
pub open spec fn log_line(test: &TestDesc, result: &TestResult) -> Seq<char> {
    outcome_text(result@) + " "@ + test.name.text() + "\n"@
}

impl ConsoleTestState {
    /// The line of the log file for a result.
    pub fn write_log_result(&self, test: &TestDesc, result: &TestResult) -> (r: String)
        ensures
            r@ == log_line(test, result),
    {
        let mut line = match result {
            TestResult::TrOk => String::from_str("ok"),
            TestResult::TrFailed => String::from_str("failed"),
            TestResult::TrFailedMsg(msg) => {
                let mut s = String::from_str("failed: ");
                s.append(msg.as_str());
                s
            },
            TestResult::TrIgnored => String::from_str("ignored"),
            TestResult::TrAllowedFail => String::from_str("failed (allowed)"),
            TestResult::TrBench(bs) => fmt_bench_samples(bs),
        };
        line.append(" ");
        line.append(test.name.as_slice());
        line.append("\n");
        line
    }
}

/// Whether the output is coloured: as the options say, and where they leave
/// it open, if the output is not captured and goes to a terminal.
pub fn use_color(opts: &TestOpts, stdout_isatty: bool) -> (r: bool)
    ensures
        r == match opts.color {
            ColorConfig::AutoColor => !opts.nocapture && stdout_isatty,
            ColorConfig::AlwaysColor => true,
            ColorConfig::NeverColor => false,
        },
{
    match opts.color {
        ColorConfig::AutoColor => !opts.nocapture && stdout_isatty,
        ColorConfig::AlwaysColor => true,
        ColorConfig::NeverColor => false,
    }
}

/// A name with as many spaces behind it as bring it to `column_count`
/// bytes, if it is padded on the right; else the name as it is.
pub open spec fn padded(name: Seq<char>, column_count: nat, align: NamePadding) -> Seq<char> {
    if align is PadOnRight && utf8(name).len() < column_count {
        name + Seq::new((column_count - utf8(name).len()) as nat, |i: int| ' ')
    } else {
        name
    }
}

impl TestDesc {
    /// The name as it stands in a column of `column_count` bytes.
    pub fn padded_name(&self, column_count: usize, align: NamePadding) -> (r: String)
        ensures
            r@ == padded(self.name.text(), column_count as nat, align),
    {
        let mut name = self.name.to_string();
        let len: usize = self.name.as_slice().as_bytes().len();
        match align {
            NamePadding::PadNone => name,
            NamePadding::PadOnRight => {
                let ghost text = name@;
                let mut i: usize = len;
                while i < column_count
                    invariant
                        len == utf8(text).len(),
                        i >= len,
                        len < column_count ==> i <= column_count,
                        len >= column_count ==> i == len,
                        name@ == text + Seq::new((i - len) as nat, |k: int| ' '),
                    decreases column_count - i,
                {
                    name.push(' ');
                    i += 1;
                    assert(name@ =~= text + Seq::new((i - len) as nat, |k: int| ' '));
                }
                assert(len >= column_count ==> name@ =~= text);
                name
            },
        }
    }
}

/// The length of the name of an entry whose name is padded, 0 for any other.
pub open spec fn len_if_padded(t: &TestDescAndFn) -> nat {
    if t.testfn.spec_padding() is PadOnRight {
        t.desc.name.bytes().len()
    } else {
        0
    }
}

/// The entry by which the names are aligned: the last of those whose
/// padded length is the greatest.
pub open spec fn widest(s: Seq<TestDescAndFn>) -> int
    decreases s.len(),
{
    if s.len() <= 1 {
        0
    } else if len_if_padded(&s.last()) >= len_if_padded(&s[widest(s.drop_last())]) {
        s.len() - 1
    } else {
        widest(s.drop_last())
    }
}

/// The width of the column of names: the length of the name of the entry
/// by which the names are aligned, 0 if there is no entry.
pub open spec fn name_column(s: Seq<TestDescAndFn>) -> nat {
    if s.len() == 0 {
        0
    } else {
        s[widest(s)].desc.name.bytes().len()
    }
}

/// The width of the column of names.
///
/// Only names that are padded count. Where several are the longest, or
/// none is padded, the last entry decides.
pub fn max_name_len(tests: &Vec<TestDescAndFn>) -> (r: usize)
    ensures
        r == name_column(tests@),
{
    if tests.len() == 0 {
        return 0;
    }
    let mut best: usize = 0;
    let mut key: usize = match tests[0].testfn.padding() {
        NamePadding::PadNone => 0,
        NamePadding::PadOnRight => tests[0].desc.name.as_slice().as_bytes().len(),
    };
    let mut i: usize = 1;
    assert(tests@.take(1).len() == 1);
    while i < tests.len()
        invariant
            1 <= i <= tests.len(),
            best == widest(tests@.take(i as int)),
            0 <= best < i,
            key == len_if_padded(&tests@[best as int]),
        decreases tests.len() - i,
    {
        proof {
            assert(tests@.take(i + 1).drop_last() =~= tests@.take(i as int));
            assert(tests@.take(i + 1).last() == tests@[i as int]);
            assert(tests@.take(i as int)[best as int] == tests@[best as int]);
        }
        let len: usize = match tests[i].testfn.padding() {
            NamePadding::PadNone => 0,
            NamePadding::PadOnRight => tests[i].desc.name.as_slice().as_bytes().len(),
        };
        if len >= key {
            best = i;
            key = len;
        }
        i += 1;
    }
    assert(tests@.take(i as int) =~= tests@);
    tests[best].desc.name.as_slice().as_bytes().len()
}

/// A count with what is counted, in the plural unless there is one.
pub open spec fn plural_text(count: u32, s: Seq<char>) -> Seq<char> {
    if count == 1 {
        decimal(1) + " "@ + s
    } else {
        decimal(count as nat) + " "@ + s + "s"@
    }
}

/// A count with what is counted.
pub fn plural(count: u32, s: &str) -> (r: String)
    ensures
        r@ == plural_text(count, s@),
{
    let mut out = String::new();
    push_decimal(&mut out, count as u128);
    out.append(" ");
    out.append(s);
    if count != 1 {
        out.append("s");
    }
    out
}

/// What an entry is called in a listing.
pub open spec fn kind_text(testfn: &TestFn) -> Seq<char> {
    if testfn.is_bench() {
        "benchmark"@
    } else {
        "test"@
    }
}

/// The lines of a listing of the entries: one for each, with its name and
/// what it is.
pub open spec fn listing(s: Seq<TestDescAndFn>) -> Seq<Seq<char>> {
    Seq::new(s.len(), |i: int| s[i].desc.name.text() + ": "@ + kind_text(&s[i].testfn))
}

/// The lines of the log file for a listing: what each entry is, and its name.
pub open spec fn listing_log(s: Seq<TestDescAndFn>) -> Seq<Seq<char>> {
    Seq::new(s.len(), |i: int| kind_text(&s[i].testfn) + " "@ + s[i].desc.name.text() + "\n"@)
}

/// The benchmarks among the entries.
pub open spec fn count_benches(s: Seq<TestDescAndFn>) -> nat
    decreases s.len(),
{
    if s.len() == 0 {
        0
    } else if s.last().testfn.is_bench() {
        count_benches(s.drop_last()) + 1
    } else {
        count_benches(s.drop_last())
    }
}

/// The summary under a listing: how many tests there are and how many
/// benchmarks, behind an empty line if there is any entry. A terse listing
/// has none.
pub open spec fn listing_summary(quiet: bool, s: Seq<TestDescAndFn>) -> Seq<Seq<char>> {
    let counts = plural_text((s.len() - count_benches(s)) as u32, "test"@) + ", "@ + plural_text(
        count_benches(s) as u32,
        "benchmark"@,
    );
    if quiet {
        Seq::empty()
    } else if s.len() > 0 {
        seq![Seq::empty(), counts]
    } else {
        seq![counts]
    }
}

/// A listing of the entries that the filter lets through.
pub struct Listing {
    /// The lines for the console.
    pub lines: Vec<String>,
    /// The lines for the log file.
    pub log: Vec<String>,
}

proof fn lemma_count_benches_bound(s: Seq<TestDescAndFn>)
    ensures
        count_benches(s) <= s.len(),
    decreases s.len(),
{
    if s.len() > 0 {
        lemma_count_benches_bound(s.drop_last());
    }
}

/// Lists the entries that the filter lets through, in their order, for the
/// console and for the log file.
pub fn list_tests_console(opts: &TestOpts, tests: Vec<TestDescAndFn>) -> (r: Listing)
    requires
        tests@.len() <= u32::MAX,
    ensures
        texts(r.lines@) == listing(crate::filter::filter_spec(opts, tests@)) + listing_summary(
            opts.format is Terse,
            crate::filter::filter_spec(opts, tests@),
        ),
        texts(r.log@) == listing_log(crate::filter::filter_spec(opts, tests@)),
{
    let quiet = match opts.format {
        OutputFormat::Terse => true,
        _ => false,
    };
    let filtered = crate::filter::filter_tests(opts, tests);
    let mut lines: Vec<String> = Vec::new();
    let mut log: Vec<String> = Vec::new();
    let mut ntest: u32 = 0;
    let mut nbench: u32 = 0;
    let mut i: usize = 0;
    while i < filtered.len()
        invariant
            i <= filtered.len(),
            filtered@.len() <= u32::MAX,
            lines@.len() == i,
            log@.len() == i,
            nbench == count_benches(filtered@.take(i as int)),
            ntest + nbench == i,
            forall|k: int| 0 <= k < i ==> (#[trigger] lines@[k])@ == listing(filtered@)[k],
            forall|k: int| 0 <= k < i ==> (#[trigger] log@[k])@ == listing_log(filtered@)[k],
        decreases filtered.len() - i,
    {
        proof {
            assert(filtered@.take(i + 1).drop_last() =~= filtered@.take(i as int));
            assert(filtered@.take(i + 1).last() == filtered@[i as int]);
        }
        let name = filtered[i].desc.name.as_slice();
        let fntype = match &filtered[i].testfn {
            TestFn::StaticTestFn(_) | TestFn::DynTestFn(_) => {
                ntest = ntest + 1;
                "test"
            },
            TestFn::StaticBenchFn(_) | TestFn::DynBenchFn(_) => {
                nbench = nbench + 1;
                "benchmark"
            },
        };
        let mut line = String::from_str(name);
        line.append(": ");
        line.append(fntype);
        lines.push(line);
        let mut entry = String::from_str(fntype);
        entry.append(" ");
        entry.append(name);
        entry.append("\n");
        log.push(entry);
        i += 1;
    }
    proof {
        assert(filtered@.take(i as int) =~= filtered@);
        assert(texts(log@) =~= listing_log(filtered@));
    }
    let ghost listed = lines@;
    if !quiet {
        if ntest != 0 || nbench != 0 {
            lines.push(String::new());
        }
        let mut counts = plural(ntest, "test");
        counts.append(", ");
        counts.append(plural(nbench, "benchmark").as_str());
        lines.push(counts);
    }
    proof {
        assert(texts(lines@) =~= listing(filtered@) + listing_summary(quiet, filtered@));
    }
    Listing { lines, log }
}

} // verus!
