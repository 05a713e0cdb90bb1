//! The data model: what a test is called, what is expected of it, and how it is run.
use std::borrow::Cow;
use vstd::prelude::*;
use vstd::string::*;

use crate::bench::Bencher;
use crate::stats::Summary;
use crate::text::{str_eq, utf8};

verus! {

/// Whether to execute tests concurrently or not.
#[derive(Copy, Clone, Debug, PartialEq, Eq, Structural)]
pub enum Concurrent {
    Yes,
    No,
}

/// Whether a name is padded to the width of its column when it is printed.
#[derive(Clone, Copy, PartialEq, Eq, Hash, Debug, Structural)]
pub enum NamePadding {
    PadNone,
    PadOnRight,
}

/// The name of a test. By convention this follows the rules for paths:
/// a series of identifiers separated by double colons, so that a runner
/// may arrange the tests hierarchically.
#[derive(PartialEq, Eq, Hash, Debug)]
pub enum TestName {
    StaticTestName(&'static str),
    DynTestName(String),
    AlignedTestName(Cow<'static, str>, NamePadding),
}

impl TestName {
    /// The characters of the name.
    pub open spec fn text(&self) -> Seq<char> {
        match self {
            TestName::StaticTestName(s) => s@,
            TestName::DynTestName(s) => s@,
            TestName::AlignedTestName(s, _) => s@,
        }
    }

    /// The bytes by which the name is matched and ordered.
    pub open spec fn bytes(&self) -> Seq<u8> {
        utf8(self.text())
    }

    /// The padding the name asks for: none unless it was aligned.
    pub open spec fn spec_padding(&self) -> NamePadding {
        match self {
            TestName::AlignedTestName(_, p) => *p,
            _ => NamePadding::PadNone,
        }
    }

    /// Equality as a key: the same variant over the same text.
    pub open spec fn same(&self, other: &TestName) -> bool {
        match (self, other) {
            (TestName::StaticTestName(a), TestName::StaticTestName(b)) => a@ == b@,
            (TestName::DynTestName(a), TestName::DynTestName(b)) => a@ == b@,
            (TestName::AlignedTestName(a, p), TestName::AlignedTestName(b, q)) => a@ == b@ && p
                == q,
            _ => false,
        }
    }

    /// The name as text.
    pub fn as_slice(&self) -> (r: &str)
        ensures
            r@ == self.text(),
    {
        match self {
            TestName::StaticTestName(s) => s,
            TestName::DynTestName(s) => s.as_str(),
            TestName::AlignedTestName(s, _) => match s {
                Cow::Borrowed(b) => b,
                Cow::Owned(o) => o.as_str(),
            },
        }
    }

    /// The padding that the name asks for.
    pub fn padding(&self) -> (r: NamePadding)
        ensures
            r == self.spec_padding(),
    {
        match self {
            TestName::AlignedTestName(_, p) => *p,
            _ => NamePadding::PadNone,
        }
    }

    /// The same name, aligned, with the padding given.
    pub fn with_padding(&self, padding: NamePadding) -> (r: Self)
        ensures
            r is AlignedTestName,
            r.text() == self.text(),
            r.spec_padding() == padding,
    {
        let name: Cow<'static, str> = match self {
            TestName::StaticTestName(name) => Cow::Borrowed(*name),
            TestName::DynTestName(name) => Cow::Owned(name.clone()),
            TestName::AlignedTestName(name, _) => match name {
                Cow::Borrowed(b) => Cow::Borrowed(*b),
                Cow::Owned(o) => Cow::Owned(o.clone()),
            },
        };
        TestName::AlignedTestName(name, padding)
    }

    /// The name as an owned string.
    pub fn to_string(&self) -> (r: String)
        ensures
            r@ == self.text(),
    {
        self.as_slice().to_owned()
    }

    /// Whether two names are the same key.
    pub fn eq_name(&self, other: &TestName) -> (r: bool)
        ensures
            r == self.same(other),
    {
        match (self, other) {
            (TestName::StaticTestName(a), TestName::StaticTestName(b)) => str_eq(a, b),
            (TestName::DynTestName(a), TestName::DynTestName(b)) => str_eq(a.as_str(), b.as_str()),
            (TestName::AlignedTestName(_, p), TestName::AlignedTestName(_, q)) => {
                str_eq(self.as_slice(), other.as_slice()) && p == q
            },
            _ => false,
        }
    }
}

impl Clone for TestName {
    fn clone(&self) -> (r: Self)
        ensures
            r == *self,
    {
        match self {
            TestName::StaticTestName(name) => TestName::StaticTestName(*name),
            TestName::DynTestName(name) => TestName::DynTestName(name.clone()),
            TestName::AlignedTestName(name, p) => match name {
                Cow::Borrowed(b) => TestName::AlignedTestName(Cow::Borrowed(*b), *p),
                Cow::Owned(o) => TestName::AlignedTestName(Cow::Owned(o.clone()), *p),
            },
        }
    }
}

/// Whether a test is expected to panic, and with what message.
#[derive(Copy, Clone, Debug, PartialEq, Eq, Hash)]
pub enum ShouldPanic {
    No,
    Yes,
    YesWithMessage(&'static str),
}

impl ShouldPanic {
    /// Equality as a key: the same variant over the same message.
    pub open spec fn same(&self, other: &ShouldPanic) -> bool {
        match (self, other) {
            (ShouldPanic::No, ShouldPanic::No) => true,
            (ShouldPanic::Yes, ShouldPanic::Yes) => true,
            (ShouldPanic::YesWithMessage(a), ShouldPanic::YesWithMessage(b)) => a@ == b@,
            _ => false,
        }
    }

    /// Whether two expectations are the same key.
    pub fn eq_expectation(&self, other: &ShouldPanic) -> (r: bool)
        ensures
            r == self.same(other),
    {
        match (self, other) {
            (ShouldPanic::No, ShouldPanic::No) => true,
            (ShouldPanic::Yes, ShouldPanic::Yes) => true,
            (ShouldPanic::YesWithMessage(a), ShouldPanic::YesWithMessage(b)) => str_eq(a, b),
            _ => false,
        }
    }
}

/// The definition of a single test. A test runner will run a list of these.
#[derive(Debug, PartialEq, Eq, Hash)]
pub struct TestDesc {
    pub name: TestName,
    pub ignore: bool,
    pub should_panic: ShouldPanic,
    pub allow_fail: bool,
}

impl Clone for TestDesc {
    fn clone(&self) -> (r: Self)
        ensures
            r == *self,
    {
        TestDesc {
            name: self.name.clone(),
            ignore: self.ignore,
            should_panic: self.should_panic,
            allow_fail: self.allow_fail,
        }
    }
}

impl TestDesc {
    /// Equality as a key: every field the same.
    pub open spec fn same(&self, other: &TestDesc) -> bool {
        &&& self.name.same(&other.name)
        &&& self.ignore == other.ignore
        &&& self.should_panic.same(&other.should_panic)
        &&& self.allow_fail == other.allow_fail
    }

    /// Whether two descriptors are the same key.
    pub fn eq_desc(&self, other: &TestDesc) -> (r: bool)
        ensures
            r == self.same(other),
    {
        self.name.eq_name(&other.name) && self.ignore == other.ignore
            && self.should_panic.eq_expectation(&other.should_panic) && self.allow_fail
            == other.allow_fail
    }
}

/// A test body that is owned by its entry.
///
/// Every closure that can be sent to another thread is such a body.
pub trait TDynTestFn: Send {
    /// The body can be run.
    spec fn ready(&self) -> bool;

    /// The body has run: what a run of it brings about holds.
    spec fn ran(&self) -> bool;

    /// Runs the body, once.
    fn run(&mut self)
        requires
            old(self).ready(),
        ensures
            old(self).ran(),
    ;
}

impl<F: FnMut() + Send> TDynTestFn for F {
    open spec fn ready(&self) -> bool {
        call_requires(*self, ())
    }

    open spec fn ran(&self) -> bool {
        call_ensures(*self, (), ())
    }

    fn run(&mut self) {
        self()
    }
}

/// Represents a benchmark function.
///
/// Every function of a `Bencher` that can be sent to another thread is one.
pub trait TDynBenchFn: Send {
    /// The body can be run, on any handle.
    spec fn ready(&self) -> bool;

    /// The body has run on the handle: what a run of it brings about holds
    /// of the handle as it was and as it is.
    spec fn ran(&self, harness: &mut Bencher) -> bool;

    /// Runs the body on the handle, once.
    fn run(&self, harness: &mut Bencher)
        requires
            self.ready(),
        ensures
            exists|h: &mut Bencher|
                *h == *old(harness) && *final(h) == *final(harness) && #[trigger] self.ran(h),
    ;
}

impl<F: Fn(&mut Bencher) + Send> TDynBenchFn for F {
    open spec fn ready(&self) -> bool {
        forall|harness: &mut Bencher| call_requires(*self, (harness,))
    }

    open spec fn ran(&self, harness: &mut Bencher) -> bool {
        call_ensures(*self, (harness,), ())
    }

    fn run(&self, harness: &mut Bencher) {
        self(harness);
        assert(forall|h: &mut Bencher| #[trigger] call_ensures(*self, (h,), ()) ==> self.ran(h));
    }
}

/// A test body that lives as long as the program and can be run from any thread.
///
/// Every function without an argument is such a body.
pub trait TStaticTestFn: Sync {
    /// The body can be run.
    spec fn ready(&self) -> bool;

    /// The body has run: what a run of it brings about holds.
    spec fn ran(&self) -> bool;

    /// Runs the body, once.
    fn run(&self)
        requires
            self.ready(),
        ensures
            self.ran(),
    ;
}

impl<F: Fn() + Sync> TStaticTestFn for F {
    open spec fn ready(&self) -> bool {
        call_requires(*self, ())
    }

    open spec fn ran(&self) -> bool {
        call_ensures(*self, (), ())
    }

    fn run(&self) {
        self()
    }
}

/// A benchmark body that lives as long as the program.
///
/// Every function of a `Bencher` is such a body.
pub trait TStaticBenchFn: Sync {
    /// The body can be run, on any handle.
    spec fn ready(&self) -> bool;

    /// The body has run on the handle: what a run of it brings about holds
    /// of the handle as it was and as it is.
    spec fn ran(&self, harness: &mut Bencher) -> bool;

    /// Runs the body on the handle, once.
    fn run(&self, harness: &mut Bencher)
        requires
            self.ready(),
        ensures
            exists|h: &mut Bencher|
                *h == *old(harness) && *final(h) == *final(harness) && #[trigger] self.ran(h),
    ;
}

impl<F: Fn(&mut Bencher) + Sync> TStaticBenchFn for F {
    open spec fn ready(&self) -> bool {
        forall|harness: &mut Bencher| call_requires(*self, (harness,))
    }

    open spec fn ran(&self, harness: &mut Bencher) -> bool {
        call_ensures(*self, (harness,), ())
    }

    fn run(&self, harness: &mut Bencher) {
        self(harness);
        assert(forall|h: &mut Bencher| #[trigger] call_ensures(*self, (h,), ()) ==> self.ran(h));
    }
}

/// A function that runs a test. If the function returns successfully,
/// the test succeeds; if the function panics then the test fails.
pub enum TestFn {
    StaticTestFn(&'static dyn TStaticTestFn),
    StaticBenchFn(&'static dyn TStaticBenchFn),
    DynTestFn(Box<dyn TDynTestFn>),
    DynBenchFn(Box<dyn TDynBenchFn + 'static>),
}

impl TestFn {
    /// Benchmarks are padded on the right, tests are not.
    pub open spec fn spec_padding(&self) -> NamePadding {
        match self {
            TestFn::StaticTestFn(_) | TestFn::DynTestFn(_) => NamePadding::PadNone,
            TestFn::StaticBenchFn(_) | TestFn::DynBenchFn(_) => NamePadding::PadOnRight,
        }
    }

    /// The body can be run.
    pub open spec fn ready(&self) -> bool {
        match self {
            TestFn::StaticTestFn(f) => f.ready(),
            TestFn::StaticBenchFn(f) => f.ready(),
            TestFn::DynTestFn(f) => f.ready(),
            TestFn::DynBenchFn(f) => f.ready(),
        }
    }

    /// The body is that of a benchmark.
    pub open spec fn is_bench(&self) -> bool {
        self is StaticBenchFn || self is DynBenchFn
    }

    /// The padding of the names of entries with such a body.
    pub fn padding(&self) -> (r: NamePadding)
        ensures
            r == self.spec_padding(),
    {
        match self {
            TestFn::StaticTestFn(_) | TestFn::DynTestFn(_) => NamePadding::PadNone,
            TestFn::StaticBenchFn(_) | TestFn::DynBenchFn(_) => NamePadding::PadOnRight,
        }
    }
}

/// An entry: what a test or benchmark is called and expected to do, and its body.
pub struct TestDescAndFn {
    pub desc: TestDesc,
    pub testfn: TestFn,
}

/// Options that are set by the caller of the runner, not on the command line.
#[derive(Copy, Clone, Debug)]
pub struct Options {
    display_output: bool,
}

impl Options {
    /// Whether the output of passing tests is shown too.
    pub closed spec fn shows_output(&self) -> bool {
        self.display_output
    }

    /// The options as they are unless the caller sets them.
    pub closed spec fn plain() -> Options {
        Options { display_output: false }
    }

    /// The options as they are unless the caller sets them.
    pub fn new() -> (r: Self)
        ensures
            r == Options::plain(),
            !r.shows_output(),
    {
        Options { display_output: false }
    }

    /// The options with the output of passing tests shown, or not.
    pub fn display_output(self, display_output: bool) -> (r: Self)
        ensures
            r.shows_output() == display_output,
    {
        Options { display_output }
    }

    /// Whether the output of passing tests is shown too.
    pub fn is_display_output(&self) -> (r: bool)
        ensures
            r == self.shows_output(),
    {
        self.display_output
    }
}

impl Default for Options {
    fn default() -> (r: Self)
        ensures
            !r.shows_output(),
    {
        Options::new()
    }
}

/// The format in which a run is written to the console.
#[derive(Copy, Clone, Debug, PartialEq, Eq, Structural)]
pub enum OutputFormat {
    Pretty,
    Terse,
    Json,
}

/// Which of the tests that are marked as ignored run: all, none, or only they.
#[derive(Copy, Clone, Debug, PartialEq, Eq, Structural)]
pub enum RunIgnored {
    Yes,
    No,
    Only,
}

/// When the output is coloured.
#[derive(Copy, Clone, Debug, PartialEq, Eq, Structural)]
pub enum ColorConfig {
    AutoColor,
    AlwaysColor,
    NeverColor,
}

/// The options of a run.
#[derive(Debug)]
pub struct TestOpts {
    pub list: bool,
    pub filter: Option<String>,
    pub filter_exact: bool,
    pub exclude_should_panic: bool,
    pub run_ignored: RunIgnored,
    pub run_tests: bool,
    pub bench_benchmarks: bool,
    pub logfile: Option<String>,
    pub nocapture: bool,
    pub color: ColorConfig,
    pub format: OutputFormat,
    pub test_threads: Option<usize>,
    pub skip: Vec<String>,
    pub options: Options,
}

impl TestOpts {
    /// The options of a run that was given no argument.
    pub fn new() -> (r: TestOpts)
        ensures
            !r.list,
            r.filter is None,
            !r.filter_exact,
            !r.exclude_should_panic,
            r.run_ignored is No,
            !r.run_tests,
            !r.bench_benchmarks,
            r.logfile is None,
            !r.nocapture,
            r.color is AutoColor,
            r.format is Pretty,
            r.test_threads is None,
            r.skip@.len() == 0,
            r.options == Options::plain(),
    {
        TestOpts {
            list: false,
            filter: None,
            filter_exact: false,
            exclude_should_panic: false,
            run_ignored: RunIgnored::No,
            run_tests: false,
            bench_benchmarks: false,
            logfile: None,
            nocapture: false,
            color: ColorConfig::AutoColor,
            format: OutputFormat::Pretty,
            test_threads: None,
            skip: Vec::new(),
            options: Options::new(),
        }
    }
}

/// The options of a run as plain values: every text as its characters.
pub struct TestOptsView {
    pub list: bool,
    pub filter: Option<Seq<char>>,
    pub filter_exact: bool,
    pub exclude_should_panic: bool,
    pub run_ignored: RunIgnored,
    pub run_tests: bool,
    pub bench_benchmarks: bool,
    pub logfile: Option<Seq<char>>,
    pub nocapture: bool,
    pub color: ColorConfig,
    pub format: OutputFormat,
    pub test_threads: Option<usize>,
    pub skip: Seq<Seq<char>>,
    pub options: Options,
}

/// The characters of a text that may be missing.
pub open spec fn opt_text(s: Option<String>) -> Option<Seq<char>> {
    match s {
        Some(t) => Some(t@),
        None => None,
    }
}

impl View for TestOpts {
    type V = TestOptsView;

    open spec fn view(&self) -> TestOptsView {
        TestOptsView {
            list: self.list,
            filter: opt_text(self.filter),
            filter_exact: self.filter_exact,
            exclude_should_panic: self.exclude_should_panic,
            run_ignored: self.run_ignored,
            run_tests: self.run_tests,
            bench_benchmarks: self.bench_benchmarks,
            logfile: opt_text(self.logfile),
            nocapture: self.nocapture,
            color: self.color,
            format: self.format,
            test_threads: self.test_threads,
            skip: Seq::new(self.skip@.len(), |i: int| self.skip@[i]@),
            options: self.options,
        }
    }
}

/// Result of parsing the options.
pub type OptRes = Result<TestOpts, String>;

/// What a benchmark measured.
#[derive(Copy, Clone, Debug, PartialEq)]
pub struct BenchSamples {
    pub ns_iter_summ: Summary,
    pub mb_s: usize,
}

/// The outcome of one entry.
#[derive(Debug, PartialEq)]
pub enum TestResult {
    TrOk,
    TrFailed,
    TrFailedMsg(String),
    TrIgnored,
    TrAllowedFail,
    TrBench(BenchSamples),
}

/// An outcome as a plain value: the message of a failure as its characters.
pub enum Outcome {
    Passed,
    Failed,
    FailedMsg(Seq<char>),
    Ignored,
    AllowedFail,
    Bench(BenchSamples),
}

impl View for TestResult {
    type V = Outcome;

    open spec fn view(&self) -> Outcome {
        match self {
            TestResult::TrOk => Outcome::Passed,
            TestResult::TrFailed => Outcome::Failed,
            TestResult::TrFailedMsg(m) => Outcome::FailedMsg(m@),
            TestResult::TrIgnored => Outcome::Ignored,
            TestResult::TrAllowedFail => Outcome::AllowedFail,
            TestResult::TrBench(bs) => Outcome::Bench(*bs),
        }
    }
}

impl Clone for TestResult {
    fn clone(&self) -> (r: Self)
        ensures
            r == *self,
    {
        match self {
            TestResult::TrOk => TestResult::TrOk,
            TestResult::TrFailed => TestResult::TrFailed,
            TestResult::TrFailedMsg(m) => TestResult::TrFailedMsg(m.clone()),
            TestResult::TrIgnored => TestResult::TrIgnored,
            TestResult::TrAllowedFail => TestResult::TrAllowedFail,
            TestResult::TrBench(bs) => TestResult::TrBench(*bs),
        }
    }
}

/// What the runner reports while it works, in the order in which it happens.
pub enum TestEvent {
    TeFiltered(Vec<TestDesc>),
    TeWait(TestDesc),
    TeResult(TestDesc, TestResult, Vec<u8>),
    TeTimeout(TestDesc),
    TeFilteredOut(usize),
}

/// What an executor hands back for one entry: the entry, its outcome and what it printed.
pub type MonitorMsg = (TestDesc, TestResult, Vec<u8>);

} // verus!
