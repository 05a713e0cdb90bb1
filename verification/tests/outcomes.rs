use libtest::bench::Bencher;
use libtest::executor::{bench_outcome, bench_result, test_outcome};
use libtest::stats::Summary;
use libtest::{
    calc_result, run_test, BenchMode, Concurrent, Execution, MonitorMsg, ShouldPanic, TDynBenchFn,
    TStaticBenchFn, TestDesc, TestDescAndFn, TestFn, TestName, TestOpts, TestResult,
};
use std::sync::mpsc::{channel, Sender};

// Does what `run_test` decides, and sends the result. A test body is not
// run: `ends` says how it ends, `Err` with the message of its panic.
fn execute(
    opts: &TestOpts,
    force_ignore: bool,
    test: TestDescAndFn,
    monitor_ch: Sender<MonitorMsg>,
    concurrency: Concurrent,
    ends: Result<(), Option<String>>,
) {
    let msg = match run_test(opts, force_ignore, test, concurrency, true, true) {
        Execution::Skip(msg) => msg,
        Execution::Test { desc, .. } => test_outcome(desc, ends, Vec::new()),
        Execution::Bench { desc, testfn, .. } => {
            let mut bs = Bencher::new(BenchMode::Auto);
            let summary = bs.bench(|b| match &testfn {
                TestFn::StaticBenchFn(f) => f.run(b),
                TestFn::DynBenchFn(f) => f.run(b),
                _ => unreachable!(),
            });
            bench_outcome(desc, Ok(summary), bs.bytes, Vec::new())
        }
    };
    monitor_ch.send(msg).unwrap();
}

// How a body ends that panics with this message.
fn panics(message: &str) -> Result<(), Option<String>> {
    Err(Some(message.to_string()))
}

fn desc(should_panic: ShouldPanic, allow_fail: bool) -> TestDesc {
    TestDesc {
        name: TestName::StaticTestName("whatever"),
        ignore: false,
        should_panic,
        allow_fail,
    }
}

#[test]
pub fn do_not_run_ignored_tests() {
    fn f() {
        panic!();
    }
    let desc = TestDescAndFn {
        desc: TestDesc {
            name: TestName::StaticTestName("whatever"),
            ignore: true,
            should_panic: ShouldPanic::No,
            allow_fail: false,
        },
        testfn: TestFn::DynTestFn(Box::new(f)),
    };
    let (tx, rx) = channel();
    execute(&TestOpts::new(), false, desc, tx, Concurrent::No, panics("explicit panic"));
    let (_, res, _) = rx.recv().unwrap();
    assert!(res != TestResult::TrOk);
}

#[test]
pub fn ignored_tests_result_in_ignored() {
    fn f() {}
    let desc = TestDescAndFn {
        desc: TestDesc {
            name: TestName::StaticTestName("whatever"),
            ignore: true,
            should_panic: ShouldPanic::No,
            allow_fail: false,
        },
        testfn: TestFn::DynTestFn(Box::new(f)),
    };
    let (tx, rx) = channel();
    execute(&TestOpts::new(), false, desc, tx, Concurrent::No, Ok(()));
    let (_, res, _) = rx.recv().unwrap();
    assert!(res == TestResult::TrIgnored);
}

#[test]
fn test_should_panic() {
    fn f() {
        panic!();
    }
    let desc = TestDescAndFn {
        desc: TestDesc {
            name: TestName::StaticTestName("whatever"),
            ignore: false,
            should_panic: ShouldPanic::Yes,
            allow_fail: false,
        },
        testfn: TestFn::DynTestFn(Box::new(f)),
    };
    let (tx, rx) = channel();
    execute(&TestOpts::new(), false, desc, tx, Concurrent::No, panics("explicit panic"));
    let (_, res, _) = rx.recv().unwrap();
    assert!(res == TestResult::TrOk);
}

#[test]
fn test_should_panic_good_message() {
    fn f() {
        panic!("an error message");
    }
    let desc = TestDescAndFn {
        desc: TestDesc {
            name: TestName::StaticTestName("whatever"),
            ignore: false,
            should_panic: ShouldPanic::YesWithMessage("error message"),
            allow_fail: false,
        },
        testfn: TestFn::DynTestFn(Box::new(f)),
    };
    let (tx, rx) = channel();
    execute(&TestOpts::new(), false, desc, tx, Concurrent::No, panics("an error message"));
    let (_, res, _) = rx.recv().unwrap();
    assert!(res == TestResult::TrOk);
}

#[test]
fn test_should_panic_bad_message() {
    fn f() {
        panic!("an error message");
    }
    let expected = "foobar";
    let failed_msg = "Panic did not include expected string";
    let desc = TestDescAndFn {
        desc: TestDesc {
            name: TestName::StaticTestName("whatever"),
            ignore: false,
            should_panic: ShouldPanic::YesWithMessage(expected),
            allow_fail: false,
        },
        testfn: TestFn::DynTestFn(Box::new(f)),
    };
    let (tx, rx) = channel();
    execute(&TestOpts::new(), false, desc, tx, Concurrent::No, panics("an error message"));
    let (_, res, _) = rx.recv().unwrap();
    assert!(
        res == TestResult::TrFailedMsg(format!(
            "{} '{}'",
            failed_msg, expected
        ))
    );
}

#[test]
fn test_should_panic_but_succeeds() {
    fn f() {}
    let desc = TestDescAndFn {
        desc: TestDesc {
            name: TestName::StaticTestName("whatever"),
            ignore: false,
            should_panic: ShouldPanic::Yes,
            allow_fail: false,
        },
        testfn: TestFn::DynTestFn(Box::new(f)),
    };
    let (tx, rx) = channel();
    execute(&TestOpts::new(), false, desc, tx, Concurrent::No, Ok(()));
    let (_, res, _) = rx.recv().unwrap();
    assert!(res == TestResult::TrFailed);
}

#[test]
fn no_panic_expected() {
    let d = desc(ShouldPanic::No, false);
    assert!(calc_result(&d, Ok(())) == TestResult::TrOk);
    assert!(calc_result(&d, Err(Some("boom".to_string()))) == TestResult::TrFailed);
    assert!(calc_result(&d, Err(None)) == TestResult::TrFailed);
}

#[test]
fn classification_table() {
    let panicked = || Err(Some("an error message".to_string()));
    let no = desc(ShouldPanic::No, true);
    assert!(calc_result(&no, Ok(())) == TestResult::TrOk);
    assert!(calc_result(&no, panicked()) == TestResult::TrAllowedFail);

    let yes = desc(ShouldPanic::Yes, false);
    assert!(calc_result(&yes, panicked()) == TestResult::TrOk);
    assert!(calc_result(&yes, Err(None)) == TestResult::TrOk);
    assert!(calc_result(&yes, Ok(())) == TestResult::TrFailed);
    let yes = desc(ShouldPanic::Yes, true);
    assert!(calc_result(&yes, panicked()) == TestResult::TrOk);
    assert!(calc_result(&yes, Ok(())) == TestResult::TrAllowedFail);

    let with = desc(ShouldPanic::YesWithMessage("error message"), false);
    assert!(calc_result(&with, panicked()) == TestResult::TrOk);
    assert!(calc_result(&with, Ok(())) == TestResult::TrFailed);
    assert!(
        calc_result(&with, Err(None))
            == TestResult::TrFailedMsg(
                "Panic did not include expected string 'error message'".to_string()
            )
    );
    let with = desc(ShouldPanic::YesWithMessage("foobar"), false);
    assert!(
        calc_result(&with, panicked())
            == TestResult::TrFailedMsg(
                "Panic did not include expected string 'foobar'".to_string()
            )
    );
    let with = desc(ShouldPanic::YesWithMessage("foobar"), true);
    assert!(calc_result(&with, panicked()) == TestResult::TrAllowedFail);
    assert!(calc_result(&with, Ok(())) == TestResult::TrAllowedFail);
    assert!(calc_result(&with, Err(Some("a foobar b".to_string()))) == TestResult::TrOk);
}

#[test]
fn ignored_even_if_the_body_panics() {
    let test = TestDescAndFn {
        desc: TestDesc {
            name: TestName::StaticTestName("whatever"),
            ignore: true,
            should_panic: ShouldPanic::No,
            allow_fail: false,
        },
        testfn: TestFn::DynTestFn(Box::new(|| panic!("never run"))),
    };
    match run_test(&TestOpts::new(), false, test, Concurrent::Yes, true, true) {
        Execution::Skip((d, res, out)) => {
            assert_eq!(d.name.to_string(), "whatever");
            assert!(res == TestResult::TrIgnored);
            assert!(out.is_empty());
        }
        _ => panic!("an ignored entry is not run"),
    }
}

#[test]
fn forced_ignore_and_platforms_without_unwinding() {
    let entry = |should_panic| TestDescAndFn {
        desc: desc(should_panic, false),
        testfn: TestFn::DynTestFn(Box::new(|| {})),
    };
    let opts = TestOpts::new();
    assert!(matches!(
        run_test(&opts, true, entry(ShouldPanic::No), Concurrent::No, true, true),
        Execution::Skip(_)
    ));
    assert!(matches!(
        run_test(&opts, false, entry(ShouldPanic::Yes), Concurrent::No, false, true),
        Execution::Skip(_)
    ));
    assert!(matches!(
        run_test(&opts, false, entry(ShouldPanic::No), Concurrent::No, false, true),
        Execution::Test { spawn: false, nocapture: false, .. }
    ));
    assert!(matches!(
        run_test(&opts, false, entry(ShouldPanic::No), Concurrent::Yes, true, true),
        Execution::Test { spawn: true, .. }
    ));
    assert!(matches!(
        run_test(&opts, false, entry(ShouldPanic::No), Concurrent::Yes, true, false),
        Execution::Test { spawn: false, .. }
    ));
}

#[test]
fn benchmarks_are_measured_only_when_asked() {
    let bench = || TestDescAndFn {
        desc: desc(ShouldPanic::No, false),
        testfn: TestFn::DynBenchFn(Box::new(|_: &mut Bencher| {})),
    };
    let mut opts = TestOpts::new();
    opts.nocapture = true;
    match run_test(&opts, false, bench(), Concurrent::Yes, true, true) {
        Execution::Test { testfn, nocapture, .. } => {
            assert!(matches!(testfn, TestFn::DynTestFn(_)));
            assert!(nocapture);
        }
        _ => panic!("a benchmark that is not measured runs as a test"),
    }
    opts.bench_benchmarks = true;
    assert!(matches!(
        run_test(&opts, false, bench(), Concurrent::Yes, true, true),
        Execution::Bench { nocapture: true, .. }
    ));
}

fn summary(median: u64) -> Summary {
    Summary {
        sum: 0,
        min: 0,
        max: 0,
        median,
        median_abs_dev: 0,
        median_abs_dev_pct: 0,
    }
}

#[test]
fn bench_result_wraps_the_summary() {
    match bench_result(Ok(Some(summary(250))), 1000) {
        TestResult::TrBench(bs) => {
            assert_eq!(bs.ns_iter_summ.median, 250);
            assert_eq!(bs.mb_s, 4000);
        }
        _ => panic!("a measurement is a bench result"),
    }
    match bench_result(Ok(Some(summary(0))), 7) {
        TestResult::TrBench(bs) => assert_eq!(bs.mb_s, 7000),
        _ => panic!("a measurement is a bench result"),
    }
    match bench_result(Ok(Some(summary(3))), u64::MAX) {
        TestResult::TrBench(bs) => {
            assert_eq!(bs.mb_s as u128, (u64::MAX as u128 * 1000 / 3).min(usize::MAX as u128))
        }
        _ => panic!("a measurement is a bench result"),
    }
    match bench_result(Ok(None), 1000) {
        TestResult::TrBench(bs) => {
            assert_eq!(bs.mb_s, 0);
            assert!(bs.ns_iter_summ == summary(0));
        }
        _ => panic!("no measurement is a bench result of nothing"),
    }
    assert!(bench_result(Err(()), 1000) == TestResult::TrFailed);
}

#[test]
pub fn test_bench_no_iter() {
    fn f(_: &mut Bencher) {}

    let (tx, rx) = channel();

    let desc = TestDescAndFn {
        desc: TestDesc {
            name: TestName::StaticTestName("f"),
            ignore: false,
            should_panic: ShouldPanic::No,
            allow_fail: false,
        },
        testfn: TestFn::DynBenchFn(Box::new(f)),
    };
    let mut opts = TestOpts::new();
    opts.nocapture = true;
    opts.bench_benchmarks = true;

    execute(&opts, false, desc, tx, Concurrent::No, Ok(()));
    let (_, res, _) = rx.recv().unwrap();
    match res {
        TestResult::TrBench(bs) => {
            assert_eq!(bs.mb_s, 0);
            assert!(bs.ns_iter_summ == summary(0));
        }
        _ => panic!("a benchmark that measures nothing still has a result"),
    }
}

#[test]
pub fn test_bench_iter() {
    fn f(b: &mut Bencher) {
        b.iter(|| {})
    }

    let (tx, rx) = channel();

    let desc = TestDescAndFn {
        desc: TestDesc {
            name: TestName::StaticTestName("f"),
            ignore: false,
            should_panic: ShouldPanic::No,
            allow_fail: false,
        },
        testfn: TestFn::DynBenchFn(Box::new(f)),
    };
    let mut opts = TestOpts::new();
    opts.nocapture = true;
    opts.bench_benchmarks = true;

    execute(&opts, false, desc, tx, Concurrent::No, Ok(()));
    let (_, res, _) = rx.recv().unwrap();
    assert!(matches!(res, TestResult::TrBench(_)));
}
