//! What is done with one entry, and what its body's end means.
//!
//! The body itself is run outside this library: here stand the decision
//! that comes before it and the classification that comes after it.
use vstd::prelude::*;
use vstd::string::*;

use crate::bench::{convert_benchmark, ns_iter_of};
use crate::stats::Summary;
use crate::text::{bytes_contain, contains_bytes, utf8};
use crate::types::{
    BenchSamples, Concurrent, MonitorMsg, Outcome, ShouldPanic, TestDesc, TestDescAndFn, TestFn,
    TestOpts, TestResult,
};

verus! {

/// A panic's message holds the expected text. A panic without a message holds none.
pub open spec fn panic_includes(payload: Option<String>, expected: Seq<char>) -> bool {
    payload matches Some(m) && contains_bytes(utf8(m@), utf8(expected))
}

/// The text of the failure of a test that panicked without the expected message.
pub open spec fn wrong_panic_message(expected: Seq<char>) -> Seq<char> {
    "Panic did not include expected string '"@ + expected + "'"@
}

/// The outcome of a test body by what was expected of it and how it ended:
/// `Ok(())` where it returned, `Err` with the panic's message, if it had one,
/// where it panicked.
pub open spec fn classify(desc: &TestDesc, task_result: Result<(), Option<String>>) -> Outcome {
    match (desc.should_panic, task_result) {
        (ShouldPanic::No, Ok(_)) => Outcome::Passed,
        (ShouldPanic::Yes, Err(_)) => Outcome::Passed,
        (ShouldPanic::YesWithMessage(m), Err(payload)) => if panic_includes(payload, m@) {
            Outcome::Passed
        } else if desc.allow_fail {
            Outcome::AllowedFail
        } else {
            Outcome::FailedMsg(wrong_panic_message(m@))
        },
        _ => if desc.allow_fail {
            Outcome::AllowedFail
        } else {
            Outcome::Failed
        },
    }
}

/// The classification is total: whatever was expected of a test, however its
/// body ended and whether it may fail, its outcome is the one that the table
/// of outcomes gives, and never `Ignored` or a measurement.
pub proof fn lemma_classification_total(
    desc: &TestDesc,
    task_result: Result<(), Option<String>>,
)
    ensures
        ({
            let o = classify(desc, task_result);
            let sp = desc.should_panic;
            let met = match (sp, task_result) {
                (ShouldPanic::No, Ok(_)) => true,
                (ShouldPanic::Yes, Err(_)) => true,
                (ShouldPanic::YesWithMessage(m), Err(p)) => panic_includes(p, m@),
                _ => false,
            };
            &&& met ==> o is Passed
            &&& !met && desc.allow_fail ==> o is AllowedFail
            &&& !met && !desc.allow_fail && sp is YesWithMessage && task_result is Err ==> o
                == Outcome::FailedMsg(wrong_panic_message(sp->YesWithMessage_0@))
            &&& !met && !desc.allow_fail && !(sp is YesWithMessage && task_result is Err) ==> o
                is Failed
            &&& o is Passed || o is AllowedFail || o is Failed || o is FailedMsg
        }),
{
}

/// Classifies the end of a test body.
pub fn calc_result(desc: &TestDesc, task_result: Result<(), Option<String>>) -> (r: TestResult)
    ensures
        r@ == classify(desc, task_result),
{
    match (&desc.should_panic, &task_result) {
        (ShouldPanic::No, Ok(_)) => TestResult::TrOk,
        (ShouldPanic::Yes, Err(_)) => TestResult::TrOk,
        (ShouldPanic::YesWithMessage(msg), Err(payload)) => {
            let included = match payload {
                Some(m) => bytes_contain(m.as_str().as_bytes(), msg.as_bytes()),
                None => false,
            };
            if included {
                TestResult::TrOk
            } else if desc.allow_fail {
                TestResult::TrAllowedFail
            } else {
                let mut text = String::from_str("Panic did not include expected string '");
                text.append(msg);
                text.append("'");
                TestResult::TrFailedMsg(text)
            }
        },
        _ => if desc.allow_fail {
            TestResult::TrAllowedFail
        } else {
            TestResult::TrFailed
        },
    }
}

/// What is to be done with one entry.
pub enum Execution {
    /// Nothing is run: the message is the entry's result.
    Skip(MonitorMsg),
    /// The benchmark is measured.
    Bench { desc: TestDesc, testfn: TestFn, nocapture: bool },
    /// The test body is run, on a thread of its own if `spawn` is set.
    Test { desc: TestDesc, testfn: TestFn, nocapture: bool, spawn: bool },
}

/// An entry is not run if the caller forces that, if it is marked as ignored,
/// or if it is expected to panic where a panic cannot be caught.
pub open spec fn is_skipped_entry(force_ignore: bool, desc: &TestDesc, can_unwind: bool) -> bool {
    force_ignore || desc.ignore || (!can_unwind && !(desc.should_panic is No))
}

/// Decides what is done with one entry.
///
/// `can_unwind` says whether the platform can catch a panic, `has_threads`
/// whether it can start a thread.
pub fn run_test(
    opts: &TestOpts,
    force_ignore: bool,
    test: TestDescAndFn,
    concurrency: Concurrent,
    can_unwind: bool,
    has_threads: bool,
) -> (e: Execution)
    ensures
        is_skipped_entry(force_ignore, &test.desc, can_unwind) ==> (e matches Execution::Skip(m)
            && m.0 == test.desc && m.1 is TrIgnored && m.2@.len() == 0),
        !is_skipped_entry(force_ignore, &test.desc, can_unwind) && test.testfn.is_bench()
            && opts.bench_benchmarks ==> e == (Execution::Bench {
            desc: test.desc,
            testfn: test.testfn,
            nocapture: opts.nocapture,
        }),
        !is_skipped_entry(force_ignore, &test.desc, can_unwind) && !(test.testfn.is_bench()
            && opts.bench_benchmarks) ==> (e matches Execution::Test {
            desc,
            testfn,
            nocapture,
            spawn,
        } && desc == test.desc && !testfn.is_bench() && (!test.testfn.is_bench() ==> testfn
            == test.testfn) && (test.testfn.is_bench() ==> testfn is DynTestFn) && nocapture
            == opts.nocapture && spawn == (concurrency is Yes && has_threads)),
{
    let TestDescAndFn { desc, testfn } = test;
    let unwinds_needed = match desc.should_panic {
        ShouldPanic::No => false,
        _ => true,
    };
    if force_ignore || desc.ignore || (!can_unwind && unwinds_needed) {
        return Execution::Skip((desc, TestResult::TrIgnored, Vec::new()));
    }
    let bench = match &testfn {
        TestFn::StaticBenchFn(_) | TestFn::DynBenchFn(_) => true,
        _ => false,
    };
    if bench && opts.bench_benchmarks {
        Execution::Bench { desc, testfn, nocapture: opts.nocapture }
    } else {
        let spawn = match concurrency {
            Concurrent::Yes => has_threads,
            Concurrent::No => false,
        };
        Execution::Test {
            desc,
            testfn: convert_benchmark(testfn),
            nocapture: opts.nocapture,
            spawn,
        }
    }
}

/// The message for a test whose body has ended.
pub fn test_outcome(
    desc: TestDesc,
    task_result: Result<(), Option<String>>,
    captured: Vec<u8>,
) -> (m: MonitorMsg)
    ensures
        m.0 == desc,
        m.1@ == classify(&desc, task_result),
        m.2 == captured,
{
    let result = calc_result(&desc, task_result);
    (desc, result, captured)
}

/// The megabytes a second that `bytes` bytes in `ns_iter` nanoseconds come to,
/// or the largest number the machine holds if that is less.
pub open spec fn mb_per_s(bytes: u64, ns_iter: u64) -> int {
    let mb = (bytes * 1000) / (ns_iter as int);
    if mb > usize::MAX {
        usize::MAX as int
    } else {
        mb
    }
}

/// The outcome of a benchmark: what was measured, a measurement of nothing if
/// the body never asked for one, a failure if it panicked.
pub open spec fn bench_result_spec(measured: Result<Option<Summary>, ()>, bytes: u64) -> Outcome {
    match measured {
        Ok(Some(summ)) => Outcome::Bench(
            BenchSamples { ns_iter_summ: summ, mb_s: mb_per_s(bytes, ns_iter_of(summ)) as usize },
        ),
        Ok(None) => Outcome::Bench(BenchSamples { ns_iter_summ: Summary::zero(), mb_s: 0 }),
        Err(_) => Outcome::Failed,
    }
}

/// The outcome of a benchmark by what its measurement gave.
pub fn bench_result(measured: Result<Option<Summary>, ()>, bytes: u64) -> (r: TestResult)
    ensures
        r@ == bench_result_spec(measured, bytes),
{
    match measured {
        Ok(Some(summ)) => {
            let ns_iter: u64 = if summ.median > 1 {
                summ.median
            } else {
                1
            };
            let mb: u128 = (bytes as u128 * 1000) / (ns_iter as u128);
            let mb_s: usize = if mb > usize::MAX as u128 {
                usize::MAX
            } else {
                mb as usize
            };
            TestResult::TrBench(BenchSamples { ns_iter_summ: summ, mb_s })
        },
        Ok(None) => TestResult::TrBench(
            BenchSamples { ns_iter_summ: Summary::new_zero(), mb_s: 0 },
        ),
        Err(_) => TestResult::TrFailed,
    }
}

/// The message for a benchmark whose measurement has ended.
pub fn bench_outcome(
    desc: TestDesc,
    measured: Result<Option<Summary>, ()>,
    bytes: u64,
    captured: Vec<u8>,
) -> (m: MonitorMsg)
    ensures
        m.0 == desc,
        m.1@ == bench_result_spec(measured, bytes),
        m.2 == captured,
{
    (desc, bench_result(measured, bytes), captured)
}

} // verus!
