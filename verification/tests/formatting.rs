use libtest::clock::ns_from_dur;
use libtest::console::plural;
use libtest::fmt::{decimal_string, pad_left};
use libtest::junit::JUnitFormatter;
use libtest::stats::Summary;
use libtest::{
    fmt_bench_samples, fmt_thousands_sep, BenchSamples, ConsoleTestState, NamePadding, ShouldPanic,
    TestDesc, TestName, TestOpts, TestResult,
};
use std::time::Duration;

fn summary(min: u64, median: u64, max: u64) -> Summary {
    Summary {
        sum: 12,
        min,
        max,
        median,
        median_abs_dev: 0,
        median_abs_dev_pct: 0,
    }
}

fn desc(name: &'static str) -> TestDesc {
    TestDesc {
        name: TestName::StaticTestName(name),
        ignore: false,
        should_panic: ShouldPanic::No,
        allow_fail: false,
    }
}

#[test]
fn thousands_separators() {
    assert_eq!(fmt_thousands_sep(0, ','), "0");
    assert_eq!(fmt_thousands_sep(7, ','), "7");
    assert_eq!(fmt_thousands_sep(999, ','), "999");
    assert_eq!(fmt_thousands_sep(1_000, ','), "1,000");
    assert_eq!(fmt_thousands_sep(1_001, ','), "1,001");
    assert_eq!(fmt_thousands_sep(12_045, '.'), "12.045");
    assert_eq!(fmt_thousands_sep(999_999, ','), "999,999");
    assert_eq!(fmt_thousands_sep(1_000_000, ','), "1,000,000");
    assert_eq!(fmt_thousands_sep(1_234_567, ','), "1,234,567");
    assert_eq!(fmt_thousands_sep(1_000_000_000, ','), "1,000,000,000");
    assert_eq!(fmt_thousands_sep(4_294_967_295, ','), "4,294,967,295");
    if usize::MAX as u128 > 1_234_567_890_123 {
        assert_eq!(fmt_thousands_sep(1_234_567_890_123, ','), "1234,567,890,123");
    }
}

#[test]
fn decimal_digits() {
    assert_eq!(decimal_string(0), "0");
    assert_eq!(decimal_string(10), "10");
    assert_eq!(decimal_string(u128::MAX), u128::MAX.to_string());
}

#[test]
fn alignment() {
    assert_eq!(pad_left("abc", 5), "  abc");
    assert_eq!(pad_left("abc", 3), "abc");
    assert_eq!(pad_left("abcdef", 3), "abcdef");
    assert_eq!(pad_left("", 2), "  ");
    assert_eq!(pad_left("\u{e9}", 3), "  \u{e9}");
}

#[test]
fn bench_samples() {
    let bs = BenchSamples {
        ns_iter_summ: summary(1_000, 1_234, 1_500),
        mb_s: 0,
    };
    assert_eq!(fmt_bench_samples(&bs), "      1,234 ns/iter (+/- 500)");
    let bs = BenchSamples {
        ns_iter_summ: summary(0, 123_456_789_012, 2_000),
        mb_s: 31,
    };
    assert_eq!(
        fmt_bench_samples(&bs),
        "123,456,789,012 ns/iter (+/- 2,000) = 31 MB/s"
    );
    let bs = BenchSamples {
        ns_iter_summ: summary(0, 0, 0),
        mb_s: 0,
    };
    assert_eq!(fmt_bench_samples(&bs), "          0 ns/iter (+/- 0)");
}

#[test]
fn log_lines() {
    let d = desc("a::b");
    let st = ConsoleTestState::new(&TestOpts::new());
    assert_eq!(st.write_log_result(&d, &TestResult::TrOk), "ok a::b\n");
    assert_eq!(st.write_log_result(&d, &TestResult::TrFailed), "failed a::b\n");
    assert_eq!(
        st.write_log_result(&d, &TestResult::TrFailedMsg("why".to_string())),
        "failed: why a::b\n"
    );
    assert_eq!(st.write_log_result(&d, &TestResult::TrIgnored), "ignored a::b\n");
    assert_eq!(
        st.write_log_result(&d, &TestResult::TrAllowedFail),
        "failed (allowed) a::b\n"
    );
    let bs = BenchSamples {
        ns_iter_summ: summary(10, 20, 40),
        mb_s: 5,
    };
    assert_eq!(
        st.write_log_result(&d, &TestResult::TrBench(bs)),
        "         20 ns/iter (+/- 30) = 5 MB/s a::b\n"
    );
}

#[test]
fn plurals() {
    assert_eq!(plural(0, "test"), "0 tests");
    assert_eq!(plural(1, "test"), "1 test");
    assert_eq!(plural(2, "benchmark"), "2 benchmarks");
}

#[test]
fn padded_names() {
    let d = desc("abc");
    assert_eq!(d.padded_name(6, NamePadding::PadOnRight), "abc   ");
    assert_eq!(d.padded_name(6, NamePadding::PadNone), "abc");
    assert_eq!(d.padded_name(2, NamePadding::PadOnRight), "abc");
    assert_eq!(d.padded_name(3, NamePadding::PadOnRight), "abc");
    // The width counts bytes.
    assert_eq!(desc("\u{e9}").padded_name(4, NamePadding::PadOnRight), "\u{e9}  ");
}

#[test]
fn names() {
    let aligned = TestName::DynTestName("x::y".to_string()).with_padding(NamePadding::PadOnRight);
    assert_eq!(aligned.as_slice(), "x::y");
    assert_eq!(aligned.padding(), NamePadding::PadOnRight);
    assert_eq!(aligned.with_padding(NamePadding::PadNone).padding(), NamePadding::PadNone);
    assert_eq!(TestName::StaticTestName("s").padding(), NamePadding::PadNone);
    assert_eq!(TestName::StaticTestName("s").to_string(), "s");
    assert!(TestName::StaticTestName("s").eq_name(&TestName::StaticTestName("s")));
    assert!(!TestName::StaticTestName("s").eq_name(&TestName::DynTestName("s".to_string())));
    assert!(!TestName::StaticTestName("s").eq_name(&TestName::StaticTestName("t")));
    let d = desc("s");
    assert!(d.eq_desc(&d.clone()));
    assert!(!d.eq_desc(&TestDesc { ignore: true, ..d.clone() }));
    assert!(!d.eq_desc(&TestDesc { should_panic: ShouldPanic::Yes, ..d.clone() }));
    assert!(!d.eq_desc(&TestDesc { allow_fail: true, ..d.clone() }));
}

#[test]
fn durations() {
    assert_eq!(ns_from_dur(Duration::new(0, 0)), 0);
    assert_eq!(ns_from_dur(Duration::new(2, 5)), 2_000_000_005);
    assert_eq!(ns_from_dur(Duration::from_millis(1_500)), 1_500_000_000);
    assert_eq!(ns_from_dur(Duration::new(u64::MAX, 0)), u64::MAX);
}

#[test]
fn junit_report() {
    let mut out = JUnitFormatter::new();
    assert_eq!(
        out.write_run_start(3),
        vec!["<?xml version=\"1.0\" encoding=\"UTF-8\"?>".to_string()]
    );
    assert!(out.write_test_start(&desc("a")).is_empty());
    assert!(out.write_timeout(&desc("a")).is_empty());
    assert!(out.write_result(&desc("a"), &TestResult::TrOk, b"").is_empty());
    assert!(out.write_result(&desc("b"), &TestResult::TrFailed, b"").is_empty());
    assert!(out
        .write_result(&desc("c"), &TestResult::TrFailedMsg("why".to_string()), b"")
        .is_empty());
    let bs = BenchSamples {
        ns_iter_summ: summary(1, 2, 3),
        mb_s: 0,
    };
    assert!(out.write_result(&desc("d"), &TestResult::TrBench(bs), b"").is_empty());

    let mut state = ConsoleTestState::new(&TestOpts::new());
    state.total = 4;
    state.failed = 2;
    let (lines, ok) = out.write_run_finish(&state, 1_250);
    assert!(!ok);
    assert_eq!(lines.len(), 14);
    assert_eq!(lines[0], "<testsuites>");
    // The timestamp is that of the call: the year, the time and the offset, to the second.
    let suite = &lines[1];
    let head = "<testsuite name=\"test\" package=\"test\" id=\"0\" hostname=\"localhost\" errors=\"0\" failures=\"2\" tests=\"4\" time=\"1.25\" timestamp=\"";
    assert!(suite.starts_with(head), "{}", suite);
    assert!(suite.ends_with("\">"));
    let stamp = &suite[head.len()..suite.len() - 2];
    assert_eq!(stamp.len(), "2018-01-26T10:30:09+08:00".len());
    assert_eq!(&stamp[10..11], "T");
    assert_eq!(
        lines[2..],
        [
            "<testcase classname=\"test.global\" name=\"a\" time=\"0\"/>",
            "<testcase classname=\"test.global\" name=\"b\" time=\"0\">",
            "<failure type=\"assert\"/>",
            "</testcase>",
            "<testcase classname=\"test.global\" name=\"c\" time=\"0\">",
            "<failure message=\"why\" type=\"assert\"/>",
            "</testcase>",
            "<testcase classname=\"test.global\" name=\"d\" time=\"12\" />",
            "<system-out/>",
            "<system-err/>",
            "</testsuite>",
            "</testsuites>",
        ]
    );

    // The results are given up with the report.
    state.failed = 0;
    let (lines, ok) = out.write_run_finish(&state, 2_000);
    assert!(ok);
    assert_eq!(lines.len(), 6);
    assert!(lines[1].contains(" time=\"2\" "));
    let (lines, _) = out.write_run_finish(&state, 60_007);
    assert!(lines[1].contains(" time=\"60.007\" "));
    let (lines, _) = out.write_run_finish(&state, 500);
    assert!(lines[1].contains(" time=\"0.5\" "));
}
