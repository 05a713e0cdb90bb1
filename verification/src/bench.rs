//! Benchmarking: the handle that a benchmark body is given, and the loop
//! that samples the body until its timings are stable.
use std::time::Instant;
use vstd::prelude::*;

use crate::clock::ns_from_dur;
use crate::stats::{summary_of, winsorize, winsorized, Summary};
use crate::types::{TDynBenchFn, TDynTestFn, TStaticBenchFn, TestDescAndFn, TestFn};

verus! {

/// The nanoseconds that one sample aims at.
pub const NS_TARGET_TOTAL: u64 = 1_000_000;

/// The samples of one summary.
pub const SAMPLE_COUNT: usize = 50;

/// The percentage of the samples that is cut off at either end.
pub const WINSORIZE_PCT: u64 = 5;

/// A round of sampling must be longer than this to be taken as having converged.
pub const CONVERGED_MIN_NS: u64 = 100_000_000;

/// The longest that sampling goes on.
pub const BUDGET_NS: u64 = 3_000_000_000;

/// How a benchmark body is run: sampled until its timings are stable, or once.
#[derive(Clone, Copy, PartialEq, Eq, Structural)]
pub enum BenchMode {
    Auto,
    Single,
}

/// Manager of the benchmarking runs.
///
/// This is fed into benchmark bodies to allow for set-up and tear-down
/// before running a piece of code repeatedly via a call to `iter`.
pub struct Bencher {
    mode: BenchMode,
    summary: Option<Summary>,
    pub bytes: u64,
}

impl Clone for Bencher {
    fn clone(&self) -> (r: Self)
        ensures
            r == *self,
    {
        Bencher { mode: self.mode, summary: self.summary, bytes: self.bytes }
    }
}

/// The nanoseconds per iteration that a summary stands for: its median, at least 1.
pub open spec fn ns_iter_of(summ: Summary) -> u64 {
    if summ.median > 1 {
        summ.median
    } else {
        1
    }
}

/// The iterations of the first samples: as many as fit into the target time
/// at the speed of a single run, at least one.
pub open spec fn initial_iterations_spec(ns_single: u64) -> u64 {
    let per = if ns_single > 1 {
        ns_single
    } else {
        1
    };
    if NS_TARGET_TOTAL / per > 1 {
        NS_TARGET_TOTAL / per
    } else {
        1
    }
}

/// The iterations of the first samples, from the nanoseconds of a single run.
pub fn initial_iterations(ns_single: u64) -> (n: u64)
    ensures
        n == initial_iterations_spec(ns_single),
        1 <= n <= NS_TARGET_TOTAL,
{
    let per: u64 = if ns_single > 1 {
        ns_single
    } else {
        1
    };
    let n: u64 = NS_TARGET_TOTAL / per;
    if n > 1 {
        n
    } else {
        1
    }
}

/// How sampling goes on after a round.
#[derive(Clone, Copy, PartialEq, Eq, Structural)]
pub enum SamplerStep {
    /// The summary of the round's long runs is the result.
    Done,
    /// Another round, with `n` iterations a sample, after `total_run` nanoseconds in all.
    Again { n: u64, total_run: u64 },
}

/// The timings have converged: the round took long enough, the short runs
/// deviate from their median by less than one percent, and the medians of
/// the short and the long runs are closer than the long runs deviate.
pub open spec fn has_converged(loop_run: u64, summ: Summary, summ5: Summary) -> bool {
    &&& loop_run > CONVERGED_MIN_NS
    &&& summ.median_abs_dev_pct < 1
    &&& summ.median - summ5.median < summ5.median_abs_dev
}

/// What follows a round of `loop_run` nanoseconds with `n` iterations a
/// sample, after `total_run` nanoseconds of earlier rounds: sampling is done
/// if the timings have converged, if the budget is spent, or if ten times `n`
/// is more than a `u64` holds; else it goes on with twice `n`.
pub open spec fn sampler_step_spec(
    n: u64,
    total_run: u64,
    loop_run: u64,
    summ: Summary,
    summ5: Summary,
) -> SamplerStep {
    if has_converged(loop_run, summ, summ5) {
        SamplerStep::Done
    } else if total_run + loop_run > BUDGET_NS {
        SamplerStep::Done
    } else if n * 10 > u64::MAX {
        SamplerStep::Done
    } else {
        SamplerStep::Again { n: (n * 2) as u64, total_run: (total_run + loop_run) as u64 }
    }
}

/// Decides how sampling goes on after a round.
pub fn sampler_step(n: u64, total_run: u64, loop_run: u64, summ: &Summary, summ5: &Summary) -> (r:
    SamplerStep)
    ensures
        r == sampler_step_spec(n, total_run, loop_run, *summ, *summ5),
{
    if loop_run > CONVERGED_MIN_NS && summ.median_abs_dev_pct < 1 && (summ.median as u128)
        < summ5.median as u128 + summ5.median_abs_dev as u128 {
        return SamplerStep::Done;
    }
    if total_run as u128 + loop_run as u128 > BUDGET_NS as u128 {
        return SamplerStep::Done;
    }
    match n.checked_mul(10) {
        Some(_) => SamplerStep::Again { n: n * 2, total_run: total_run + loop_run },
        None => SamplerStep::Done,
    }
}

impl Bencher {
    /// How the body is run.
    pub closed spec fn mode(&self) -> BenchMode {
        self.mode
    }

    /// What the body has measured, if it has measured anything.
    pub closed spec fn summary(&self) -> Option<Summary> {
        self.summary
    }

    /// The bytes that one iteration handles, as the body set them.
    pub closed spec fn spec_bytes(&self) -> u64 {
        self.bytes
    }

    /// A handle that has measured nothing yet.
    pub closed spec fn fresh(mode: BenchMode) -> Bencher {
        Bencher { mode, summary: None, bytes: 0 }
    }

    /// A handle that has measured nothing yet.
    pub fn new(mode: BenchMode) -> (r: Bencher)
        ensures
            r == Bencher::fresh(mode),
            r.mode() == mode,
            r.summary() is None,
            r.spec_bytes() == 0,
    {
        Bencher { mode, summary: None, bytes: 0 }
    }

    /// Callback for benchmark functions to run in their body.
    ///
    /// In single mode `inner` is run once and nothing is measured. Else it is
    /// sampled, and the summary of the samples is kept.
    pub fn iter<T, F>(&mut self, mut inner: F) where F: FnMut() -> T
        requires
            call_requires(inner, ()),
        ensures
            final(self).mode() == old(self).mode(),
            final(self).spec_bytes() == old(self).spec_bytes(),
            old(self).mode() is Single ==> final(self).summary() == old(self).summary(),
            exists|r: T| call_ensures(inner, (), r),
            old(self).mode() is Auto ==> (final(self).summary() matches Some(s) && is_summary(s)),
    {
        if self.mode == BenchMode::Single {
            ns_iter_inner(&mut inner, 1);
            return ;
        }
        self.summary = Some(iter(&mut inner));
    }

    /// Runs a benchmark body on this handle and returns what it measured,
    /// if it measured anything.
    pub fn bench<F>(&mut self, mut f: F) -> (r: Option<Summary>) where F: FnMut(&mut Self)
        requires
            forall|b: &mut Bencher| call_requires(f, (b,)),
        ensures
            r == final(self).summary(),
            exists|b: &mut Bencher|
                *b == *old(self) && *final(b) == *final(self) && #[trigger] call_ensures(
                    f,
                    (b,),
                    (),
                ),
    {
        f(self);
        self.summary
    }
}

/// Runs `inner` `k` times and returns the nanoseconds that took.
pub fn ns_iter_inner<T, F>(inner: &mut F, k: u64) -> (ns: u64) where F: FnMut() -> T
    requires
        call_requires(*old(inner), ()),
    ensures
        call_requires(*final(inner), ()),
        *final(inner) == *old(inner),
        k > 0 ==> exists|r: T| call_ensures(*old(inner), (), r),
{
    let start = Instant::now();
    let mut i: u64 = 0;
    while i < k
        invariant
            call_requires(*inner, ()),
            *inner == *old(inner),
            i > 0 ==> exists|r: T| call_ensures(*old(inner), (), r),
        decreases k - i,
    {
        let r = inner();
        assert(call_ensures(*old(inner), (), r));
        std::hint::black_box(r);
        i += 1;
    }
    ns_from_dur(start.elapsed())
}

/// `s` sums up fifty samples that were held between their 5th and 95th percentile.
pub open spec fn is_summary(s: Summary) -> bool {
    exists|samples: Seq<u64>|
        samples.len() == SAMPLE_COUNT && s == summary_of(
            #[trigger] winsorized(samples, WINSORIZE_PCT),
        )
}

/// The nanoseconds per iteration of a run of `n` iterations that took `ns`
/// nanoseconds, rounded down.
pub open spec fn per_iteration(ns: u64, n: u64) -> u64 {
    (ns / n) as u64
}

/// `sample` is the nanoseconds per iteration of some run of `n` iterations.
pub open spec fn is_sample(sample: u64, n: u64) -> bool {
    exists|ns: u64| sample == #[trigger] per_iteration(ns, n)
}

/// Fills `samples` with the nanoseconds per iteration of runs of `n`
/// iterations each: one run of `inner` `n` times for every sample.
fn take_samples<T, F>(inner: &mut F, n: u64, samples: &mut Vec<u64>) where F: FnMut() -> T
    requires
        call_requires(*old(inner), ()),
        n >= 1,
    ensures
        call_requires(*final(inner), ()),
        *final(inner) == *old(inner),
        final(samples)@.len() == old(samples)@.len(),
        forall|i: int| 0 <= i < final(samples)@.len() ==> is_sample(#[trigger] final(samples)@[i], n),
        old(samples)@.len() > 0 ==> exists|out: T| call_ensures(*old(inner), (), out),
{
    let mut i: usize = 0;
    while i < samples.len()
        invariant
            call_requires(*inner, ()),
            *inner == *old(inner),
            samples@.len() == old(samples)@.len(),
            i <= samples@.len(),
            n >= 1,
            forall|k: int| 0 <= k < i ==> is_sample(#[trigger] samples@[k], n),
            i > 0 ==> exists|out: T| call_ensures(*old(inner), (), out),
        decreases samples.len() - i,
    {
        let ns: u64 = ns_iter_inner(inner, n);
        samples.set(i, ns / n);
        assert(samples@[i as int] == per_iteration(ns, n));
        i += 1;
    }
}

/// Samples `inner` until its timings are stable, the budget is spent or the
/// number of iterations cannot grow, and returns the summary of the last
/// round's long runs.
pub fn iter<T, F>(inner: &mut F) -> (r: Summary) where F: FnMut() -> T
    requires
        call_requires(*old(inner), ()),
    ensures
        is_summary(r),
        *final(inner) == *old(inner),
        exists|out: T| call_ensures(*old(inner), (), out),
{
    // Initial bench run to get ballpark figure.
    let ns_single: u64 = ns_iter_inner(inner, 1);
    let mut n: u64 = initial_iterations(ns_single);
    let mut total_run: u64 = 0;
    let mut samples: Vec<u64> = Vec::new();
    while samples.len() < SAMPLE_COUNT
        invariant
            samples@.len() <= SAMPLE_COUNT,
        decreases SAMPLE_COUNT - samples.len(),
    {
        samples.push(0);
    }
    loop
        invariant
            call_requires(*inner, ()),
            *inner == *old(inner),
            exists|out: T| call_ensures(*old(inner), (), out),
            samples@.len() == SAMPLE_COUNT,
            n >= 1,
            n * 5 <= u64::MAX,
        decreases u64::MAX - n,
    {
        let loop_start = Instant::now();

        take_samples(inner, n, &mut samples);
        winsorize(&mut samples, WINSORIZE_PCT);
        let summ = Summary::new(&samples);

        take_samples(inner, 5 * n, &mut samples);
        let ghost raw = samples@;
        winsorize(&mut samples, WINSORIZE_PCT);
        let summ5 = Summary::new(&samples);
        assert(summ5 == summary_of(winsorized(raw, WINSORIZE_PCT)));

        let loop_run: u64 = ns_from_dur(loop_start.elapsed());
        match sampler_step(n, total_run, loop_run, &summ, &summ5) {
            SamplerStep::Done => {
                return summ5;
            },
            SamplerStep::Again { n: next, total_run: total } => {
                n = next;
                total_run = total;
            },
        }
    }
}

/// Runs a benchmark body once, in single mode: nothing is measured.
pub fn run_once<F>(f: F) where F: FnMut(&mut Bencher)
    requires
        forall|b: &mut Bencher| call_requires(f, (b,)),
    ensures
        exists|b: &mut Bencher|
            b.mode() is Single && b.summary() is None && b.spec_bytes() == 0
                && #[trigger] call_ensures(f, (b,), ()),
{
    let mut bs = Bencher::new(BenchMode::Single);
    bs.bench(f);
}

/// Fixed frame used to clean the backtrace: runs `f`, once.
#[inline(never)]
pub fn __rust_begin_short_backtrace<F: FnMut()>(mut f: F)
    requires
        call_requires(f, ()),
    ensures
        call_ensures(f, (), ()),
{
    f()
}

/// The body of a benchmark.
pub enum BenchBody {
    Static(&'static dyn TStaticBenchFn),
    Dyn(Box<dyn TDynBenchFn>),
}

/// A benchmark as a test: to run it is to run the benchmark's body once, in
/// single mode.
pub struct BenchAsTest {
    pub body: BenchBody,
}

impl BenchBody {
    /// The body has run on the handle.
    pub open spec fn ran(&self, harness: &mut Bencher) -> bool {
        match self {
            BenchBody::Static(f) => f.ran(harness),
            BenchBody::Dyn(f) => f.ran(harness),
        }
    }
}

impl TDynTestFn for BenchAsTest {
    open spec fn ready(&self) -> bool {
        match self.body {
            BenchBody::Static(f) => f.ready(),
            BenchBody::Dyn(f) => f.ready(),
        }
    }

    /// The benchmark's body has run on a handle that was new and in single
    /// mode: nothing was measured.
    open spec fn ran(&self) -> bool {
        exists|harness: &mut Bencher|
            *harness == Bencher::fresh(BenchMode::Single) && #[trigger] self.body.ran(harness)
    }

    fn run(&mut self) {
        let mut bs = Bencher::new(BenchMode::Single);
        match &self.body {
            BenchBody::Static(f) => {
                f.run(&mut bs);
                assert(forall|h: &mut Bencher| #[trigger] f.ran(h) ==> self.body.ran(h));
            },
            BenchBody::Dyn(f) => {
                f.run(&mut bs);
                assert(forall|h: &mut Bencher| #[trigger] f.ran(h) ==> self.body.ran(h));
            },
        }
    }
}

/// The body as that of a test: a test's body as it is, a benchmark's as a
/// single run of it.
pub fn convert_benchmark(testfn: TestFn) -> (r: TestFn)
    ensures
        !r.is_bench(),
        !testfn.is_bench() ==> r == testfn,
        testfn.is_bench() ==> r is DynTestFn,
        r.ready() == testfn.ready(),
{
    match testfn {
        TestFn::DynBenchFn(bench) => TestFn::DynTestFn(
            Box::new(BenchAsTest { body: BenchBody::Dyn(bench) }),
        ),
        TestFn::StaticBenchFn(benchfn) => TestFn::DynTestFn(
            Box::new(BenchAsTest { body: BenchBody::Static(benchfn) }),
        ),
        f => f,
    }
}

/// The entries with each benchmark turned into a test that runs it once.
pub open spec fn converted(before: Seq<TestDescAndFn>, after: Seq<TestDescAndFn>) -> bool {
    &&& after.len() == before.len()
    &&& forall|i: int|
        0 <= i < before.len() ==> {
            &&& (#[trigger] after[i]).desc == before[i].desc
            &&& !after[i].testfn.is_bench()
            &&& !before[i].testfn.is_bench() ==> after[i] == before[i]
            &&& before[i].testfn.is_bench() ==> after[i].testfn is DynTestFn
        }
}

/// Converts benchmarks to tests, for a run that does not measure them.
pub fn convert_benchmarks_to_tests(tests: Vec<TestDescAndFn>) -> (r: Vec<TestDescAndFn>)
    ensures
        converted(tests@, r@),
{
    let ghost all = tests@;
    let mut pending = crate::vecs::reversed(tests);
    let mut out: Vec<TestDescAndFn> = Vec::new();
    while pending.len() > 0
        invariant
            out@.len() + pending@.len() == all.len(),
            forall|i: int| 0 <= i < pending@.len() ==> pending@[i] == all[all.len() - 1 - i],
            converted(all.take(out@.len() as int), out@),
        decreases pending.len(),
    {
        let x = pending.pop().unwrap();
        let TestDescAndFn { desc, testfn } = x;
        let ghost k = out@.len() as int;
        let ghost before = out@;
        out.push(TestDescAndFn { desc, testfn: convert_benchmark(testfn) });
        assert forall|i: int| 0 <= i < all.take(k + 1).len() implies {
            &&& (#[trigger] out@[i]).desc == all.take(k + 1)[i].desc
            &&& !out@[i].testfn.is_bench()
            &&& !all.take(k + 1)[i].testfn.is_bench() ==> out@[i] == all.take(k + 1)[i]
            &&& all.take(k + 1)[i].testfn.is_bench() ==> out@[i].testfn is DynTestFn
        } by {
            if i < k {
                assert(out@[i] == before[i]);
                assert(all.take(k)[i] == all.take(k + 1)[i]);
            }
        }
    }
    assert(all.take(out@.len() as int) =~= all);
    out
}

} // verus!
