use libtest::bench::Bencher;
use libtest::executor::{bench_outcome, test_outcome};
use libtest::{
    run_test, run_tests, Concurrent, ConsoleTestState, Execution, MonitorMsg, NamePadding,
    ShouldPanic, Step, TestDesc, TestDescAndFn, TestEvent, TestFn,
    TestName, TestOpts, TestResult,
};

fn test(name: &'static str) -> TestDescAndFn {
    TestDescAndFn {
        desc: TestDesc {
            name: TestName::StaticTestName(name),
            ignore: false,
            should_panic: ShouldPanic::No,
            allow_fail: false,
        },
        testfn: TestFn::DynTestFn(Box::new(|| {})),
    }
}

fn ignored(name: &'static str) -> TestDescAndFn {
    let mut t = test(name);
    t.desc.ignore = true;
    t
}

fn bench(name: &'static str) -> TestDescAndFn {
    TestDescAndFn {
        desc: TestDesc {
            name: TestName::StaticTestName(name),
            ignore: false,
            should_panic: ShouldPanic::No,
            allow_fail: false,
        },
        testfn: TestFn::DynBenchFn(Box::new(|_: &mut Bencher| {})),
    }
}

fn show(e: &TestEvent) -> String {
    match e {
        TestEvent::TeFiltered(descs) => format!(
            "filtered {}",
            descs.iter().map(|d| d.name.to_string()).collect::<Vec<_>>().join(" ")
        ),
        TestEvent::TeFilteredOut(n) => format!("filtered out {}", n),
        TestEvent::TeWait(d) => format!("wait {}", d.name.as_slice()),
        TestEvent::TeTimeout(d) => format!("timeout {}", d.name.as_slice()),
        TestEvent::TeResult(d, r, _) => format!(
            "result {} {}",
            d.name.as_slice(),
            match r {
                TestResult::TrOk => "ok",
                TestResult::TrFailed => "failed",
                TestResult::TrFailedMsg(_) => "failed with a message",
                TestResult::TrIgnored => "ignored",
                TestResult::TrAllowedFail => "allowed to fail",
                TestResult::TrBench(_) => "measured",
            }
        ),
    }
}

// What an executor sends for an entry whose body returns at once.
fn outcome(opts: &TestOpts, force_ignore: bool, test: TestDescAndFn, concurrency: Concurrent) -> MonitorMsg {
    match run_test(opts, force_ignore, test, concurrency, true, true) {
        Execution::Skip(msg) => msg,
        Execution::Test { desc, .. } => test_outcome(desc, Ok(()), b"out".to_vec()),
        Execution::Bench { desc, .. } => bench_outcome(desc, Ok(None), 0, Vec::new()),
    }
}

// A whole run in which every result arrives at once.
fn drive(opts: &TestOpts, tests: Vec<TestDescAndFn>, concurrency: usize) -> (Vec<String>, ConsoleTestState) {
    let mut st = ConsoleTestState::new(opts);
    let mut log = Vec::new();
    let (mut rl, events) = run_tests(opts, tests, concurrency);
    for e in events {
        log.push(show(&e));
        st.on_event(e);
    }
    let mut inbox: Vec<MonitorMsg> = Vec::new();
    loop {
        match rl.next(0) {
            Step::Launch { event, test, force_ignore, concurrency } => {
                log.push(show(&event));
                st.on_event(event);
                inbox.push(outcome(opts, force_ignore, test, concurrency));
            }
            Step::Receive { .. } => {
                let e = rl.deliver(inbox.remove(0));
                log.push(show(&e));
                st.on_event(e);
            }
            Step::Done => break,
        }
    }
    assert!(inbox.is_empty());
    (log, st)
}

#[test]
fn serial_run_reports_in_the_order_of_the_names() {
    let mut opts = TestOpts::new();
    opts.run_tests = true;
    opts.skip = vec!["skipped".to_string()];
    let tests = vec![test("c"), ignored("a"), test("skipped"), test("b")];
    let (log, st) = drive(&opts, tests, 1);
    assert_eq!(
        log,
        vec![
            "filtered out 1",
            "filtered a b c",
            "wait a",
            "result a ignored",
            "wait b",
            "result b ok",
            "wait c",
            "result c ok",
        ]
    );
    assert_eq!(st.total, 3);
    assert_eq!(st.filtered_out, 1);
    assert_eq!(st.passed, 2);
    assert_eq!(st.ignored, 1);
    assert_eq!(
        st.passed + st.failed + st.ignored + st.allowed_fail + st.measured,
        st.total
    );
    assert_eq!(st.current_test_count(), st.total);
    assert_eq!(st.not_failures.len(), 2);
    assert_eq!(st.not_failures[0].1, b"out".to_vec());
}

#[test]
fn tests_are_not_run_unless_asked() {
    let opts = TestOpts::new();
    let (log, st) = drive(&opts, vec![test("b"), test("a")], 1);
    assert_eq!(
        log,
        vec![
            "filtered out 0",
            "filtered a b",
            "wait a",
            "result a ignored",
            "wait b",
            "result b ignored",
        ]
    );
    assert_eq!(st.ignored, 2);
}

#[test]
fn benchmarks_run_behind_the_tests() {
    let mut opts = TestOpts::new();
    opts.run_tests = true;
    opts.bench_benchmarks = true;
    for concurrency in [1, 4] {
        let (log, st) = drive(&opts, vec![bench("a"), test("d"), bench("c"), test("b")], concurrency);
        let results: Vec<&String> = log.iter().filter(|l| l.starts_with("result")).collect();
        assert_eq!(
            results,
            vec!["result b ok", "result d ok", "result a measured", "result c measured"]
        );
        assert_eq!(log[1], "filtered a b c d");
        assert_eq!(st.measured, 2);
        assert_eq!(st.passed, 2);
        assert_eq!(st.current_test_count(), st.total);
        assert_eq!(st.metrics.fmt_metrics(), "a: 0 (+/- 0), c: 0 (+/- 0)");
    }
}

#[test]
fn benchmarks_become_tests_when_they_are_not_measured() {
    let mut opts = TestOpts::new();
    opts.run_tests = true;
    let (log, st) = drive(&opts, vec![bench("b"), test("a")], 1);
    assert_eq!(
        log[2..],
        ["wait a", "result a ok", "wait b", "result b ok"]
    );
    assert_eq!(st.passed, 2);
}

#[test]
fn names_are_aligned_by_what_the_entry_is() {
    let mut opts = TestOpts::new();
    opts.bench_benchmarks = true;
    let (_, events) = run_tests(&opts, vec![bench("b"), test("a")], 1);
    match &events[1] {
        TestEvent::TeFiltered(descs) => {
            assert_eq!(descs.len(), 2);
            assert!(matches!(descs[0].name, TestName::AlignedTestName(_, NamePadding::PadNone)));
            assert!(matches!(descs[1].name, TestName::AlignedTestName(_, NamePadding::PadOnRight)));
        }
        _ => panic!("the second event lists the entries"),
    }
    opts.bench_benchmarks = false;
    let (_, events) = run_tests(&opts, vec![bench("b"), test("a")], 1);
    match &events[1] {
        TestEvent::TeFiltered(descs) => {
            assert!(matches!(descs[1].name, TestName::AlignedTestName(_, NamePadding::PadNone)));
        }
        _ => panic!("the second event lists the entries"),
    }
}

#[test]
fn concurrent_run_admits_up_to_the_limit() {
    let mut opts = TestOpts::new();
    opts.run_tests = true;
    let (mut rl, _) = run_tests(&opts, vec![test("c"), test("a"), test("b")], 2);
    let mut launched = Vec::new();
    for now in [5, 7] {
        match rl.next(now) {
            Step::Launch { event, test, force_ignore, concurrency } => {
                assert!(!force_ignore);
                assert!(concurrency == Concurrent::Yes);
                assert_eq!(show(&event), format!("wait {}", test.desc.name.as_slice()));
                launched.push(outcome(&opts, force_ignore, test, concurrency));
            }
            _ => panic!("two tests can start"),
        }
    }
    // Both are in flight: wait until the first deadline, a minute after the start.
    match rl.next(1_000_000_005) {
        Step::Receive { timeout } => assert_eq!(timeout, Some(59_000_000_000)),
        _ => panic!("the limit is reached"),
    }
    // The result of `b` arrives first.
    let b = launched.pop().unwrap();
    assert_eq!(show(&rl.deliver(b)), "result b ok");
    match rl.next(2_000_000_000) {
        Step::Launch { event, test, force_ignore, concurrency } => {
            assert_eq!(show(&event), "wait c");
            launched.push(outcome(&opts, force_ignore, test, concurrency));
        }
        _ => panic!("a place is free"),
    }
    match rl.next(3_000_000_000) {
        Step::Receive { timeout } => assert_eq!(timeout, Some(57_000_000_005)),
        _ => panic!("the limit is reached"),
    }
    let c = launched.pop().unwrap();
    assert_eq!(show(&rl.deliver(c)), "result c ok");
    let a = launched.pop().unwrap();
    assert_eq!(show(&rl.deliver(a)), "result a ok");
    assert!(matches!(rl.next(4_000_000_000), Step::Done));
    assert!(matches!(rl.next(4_000_000_000), Step::Done));
}

#[test]
fn slow_tests_are_reported_before_their_result() {
    let mut opts = TestOpts::new();
    opts.run_tests = true;
    let mut st = ConsoleTestState::new(&opts);
    let mut log = Vec::new();
    let (mut rl, events) = run_tests(&opts, vec![test("slow"), test("quick")], 2);
    for e in events {
        st.on_event(e);
    }
    let mut inbox = Vec::new();
    for now in [0, 10] {
        match rl.next(now) {
            Step::Launch { event, test, force_ignore, concurrency } => {
                log.push(show(&event));
                st.on_event(event);
                inbox.push(outcome(&opts, force_ignore, test, concurrency));
            }
            _ => panic!("two tests can start"),
        }
    }
    // `quick` started first, by its name; its result arrives in time.
    let quick = inbox.remove(0);
    let e = rl.deliver(quick);
    log.push(show(&e));
    st.on_event(e);
    // Nothing arrives until the deadline of `slow` has passed.
    match rl.next(20) {
        Step::Receive { timeout } => assert_eq!(timeout, Some(60_000_000_000 - 10)),
        _ => panic!("a test is in flight"),
    }
    assert!(rl.harvest(60_000_000_009).is_empty());
    for e in rl.harvest(60_000_000_010) {
        log.push(show(&e));
        st.on_event(e);
    }
    // A test that was reported as slow has no deadline any more.
    assert!(rl.harvest(u64::MAX).is_empty());
    match rl.next(60_000_000_011) {
        Step::Receive { timeout } => assert_eq!(timeout, None),
        _ => panic!("a test is in flight"),
    }
    let e = rl.deliver(inbox.remove(0));
    log.push(show(&e));
    st.on_event(e);
    assert!(matches!(rl.next(60_000_000_012), Step::Done));
    assert_eq!(
        log,
        vec!["wait quick", "wait slow", "result quick ok", "timeout slow", "result slow ok"]
    );
    assert_eq!(
        st.passed + st.failed + st.ignored + st.allowed_fail + st.measured,
        st.total
    );
}

#[test]
fn a_deadline_that_has_passed_gives_no_time_to_wait() {
    let mut opts = TestOpts::new();
    opts.run_tests = true;
    let (mut rl, _) = run_tests(&opts, vec![test("a")], 2);
    assert!(matches!(rl.next(u64::MAX - 5), Step::Launch { .. }));
    // The deadline is the end of time where a minute more does not fit.
    match rl.next(u64::MAX - 1) {
        Step::Receive { timeout } => assert_eq!(timeout, Some(1)),
        _ => panic!("a test is in flight"),
    }
    let (mut rl, _) = run_tests(&opts, vec![test("a")], 2);
    assert!(matches!(rl.next(0), Step::Launch { .. }));
    match rl.next(70_000_000_000) {
        Step::Receive { timeout } => assert_eq!(timeout, Some(0)),
        _ => panic!("a test is in flight"),
    }
}

#[test]
fn an_empty_run_is_over_at_once() {
    let opts = TestOpts::new();
    let (log, st) = drive(&opts, vec![], 3);
    assert_eq!(log, vec!["filtered out 0", "filtered "]);
    assert_eq!(st.total, 0);
    assert_eq!(st.current_test_count(), 0);
}
