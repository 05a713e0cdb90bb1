//! The report of a run in the JUnit format: the results are kept as they
//! come in, and written down when the run is over.
use vstd::prelude::*;
use vstd::string::*;

use crate::clock::local_timestamp;
use crate::console::ConsoleTestState;
use crate::fmt::{decimal, digit, push_decimal};
use crate::text::texts;
use crate::types::{TestDesc, TestResult};

verus! {

/// The line that opens the document.
pub const XML_PROLOGUE: &'static str = "<?xml version=\"1.0\" encoding=\"UTF-8\"?>";

/// Keeps the results of a run for the report.
pub struct JUnitFormatter {
    results: Vec<(TestDesc, TestResult)>,
}

/// A number of milliseconds in seconds: the whole seconds, and behind a
/// point the thousandths without the zeros at their end, if there are any.
pub open spec fn seconds_text(ms: u64) -> Seq<char> {
    let whole = decimal((ms / 1000) as nat);
    let frac = (ms % 1000) as nat;
    if frac == 0 {
        whole
    } else if frac % 100 == 0 {
        whole.push('.').push(digit(frac / 100))
    } else if frac % 10 == 0 {
        whole.push('.').push(digit(frac / 100)).push(digit((frac / 10) % 10))
    } else {
        whole.push('.').push(digit(frac / 100)).push(digit((frac / 10) % 10)).push(
            digit(frac % 10),
        )
    }
}

/// The line that opens the suite.
pub open spec fn suite_line(failed: usize, total: usize, elapsed_ms: u64, timestamp: Seq<char>) -> Seq<
    char,
> {
    "<testsuite name=\"test\" package=\"test\" id=\"0\" hostname=\"localhost\" errors=\"0\" failures=\""@
        + decimal(failed as nat) + "\" tests=\""@ + decimal(total as nat) + "\" time=\""@
        + seconds_text(elapsed_ms) + "\" timestamp=\""@ + timestamp + "\">"@
}

/// The line that opens the case of an entry, up to its time.
pub open spec fn case_head(name: Seq<char>) -> Seq<char> {
    "<testcase classname=\"test.global\" name=\""@ + name + "\" time=\""@
}

/// The lines of the case of one entry.
pub open spec fn case_lines(desc: TestDesc, result: TestResult) -> Seq<Seq<char>> {
    let name = desc.name.text();
    match result {
        TestResult::TrFailed => seq![
            case_head(name) + "0\">"@,
            "<failure type=\"assert\"/>"@,
            "</testcase>"@,
        ],
        TestResult::TrFailedMsg(m) => seq![
            case_head(name) + "0\">"@,
            "<failure message=\""@ + m@ + "\" type=\"assert\"/>"@,
            "</testcase>"@,
        ],
        TestResult::TrBench(b) => seq![
            case_head(name) + decimal(b.ns_iter_summ.sum as nat) + "\" />"@,
        ],
        _ => seq![case_head(name) + "0\"/>"@],
    }
}

/// The lines of the cases of the entries, in their order.
pub open spec fn cases(results: Seq<(TestDesc, TestResult)>) -> Seq<Seq<char>>
    decreases results.len(),
{
    if results.len() == 0 {
        Seq::empty()
    } else {
        cases(results.drop_last()) + case_lines(results.last().0, results.last().1)
    }
}

/// The lines of the report: the suite with its counts, the time the run
/// took and the time at which it is written, a case for every result in the
/// order in which the results came in, and the end of the suite.
pub open spec fn report(
    results: Seq<(TestDesc, TestResult)>,
    failed: usize,
    total: usize,
    elapsed_ms: u64,
    timestamp: Seq<char>,
) -> Seq<Seq<char>> {
    seq!["<testsuites>"@, suite_line(failed, total, elapsed_ms, timestamp)] + cases(results)
        + seq!["<system-out/>"@, "<system-err/>"@, "</testsuite>"@, "</testsuites>"@]
}

fn digit_of(d: u64) -> (c: char)
    requires
        d < 10,
    ensures
        c == digit(d as nat),
{
    (48 + d as u8) as char
}

/// Appends a number of milliseconds in seconds.
pub fn push_seconds(out: &mut String, ms: u64)
    ensures
        final(out)@ == old(out)@ + seconds_text(ms),
{
    push_decimal(out, (ms / 1000) as u128);
    let frac: u64 = ms % 1000;
    if frac != 0 {
        out.push('.');
        out.push(digit_of(frac / 100));
        if frac % 100 != 0 {
            out.push(digit_of((frac / 10) % 10));
            if frac % 10 != 0 {
                out.push(digit_of(frac % 10));
            }
        }
    }
    assert(out@ =~= old(out)@ + seconds_text(ms));
}

fn case_open(name: &str) -> (r: String)
    ensures
        r@ == case_head(name@),
{
    let mut line = String::from_str("<testcase classname=\"test.global\" name=\"");
    line.append(name);
    line.append("\" time=\"");
    line
}

/// Appends the lines of the case of one entry.
fn push_case(lines: &mut Vec<String>, desc: &TestDesc, result: &TestResult)
    ensures
        texts(final(lines)@) == texts(old(lines)@) + case_lines(*desc, *result),
{
    let mut head = case_open(desc.name.as_slice());
    match result {
        TestResult::TrFailed => {
            head.append("0\">");
            lines.push(head);
            lines.push(String::from_str("<failure type=\"assert\"/>"));
            lines.push(String::from_str("</testcase>"));
        },
        TestResult::TrFailedMsg(m) => {
            head.append("0\">");
            lines.push(head);
            let mut failure = String::from_str("<failure message=\"");
            failure.append(m.as_str());
            failure.append("\" type=\"assert\"/>");
            lines.push(failure);
            lines.push(String::from_str("</testcase>"));
        },
        TestResult::TrBench(b) => {
            push_decimal(&mut head, b.ns_iter_summ.sum);
            head.append("\" />");
            lines.push(head);
        },
        _ => {
            head.append("0\"/>");
            lines.push(head);
        },
    }
    assert(texts(lines@) =~= texts(old(lines)@) + case_lines(*desc, *result));
}

/// The lines of the report.
pub fn report_lines(
    results: &Vec<(TestDesc, TestResult)>,
    failed: usize,
    total: usize,
    elapsed_ms: u64,
    timestamp: &str,
) -> (lines: Vec<String>)
    ensures
        texts(lines@) == report(results@, failed, total, elapsed_ms, timestamp@),
{
    let mut lines: Vec<String> = Vec::new();
    lines.push(String::from_str("<testsuites>"));
    let mut suite = String::from_str(
        "<testsuite name=\"test\" package=\"test\" id=\"0\" hostname=\"localhost\" errors=\"0\" failures=\"",
    );
    push_decimal(&mut suite, failed as u128);
    suite.append("\" tests=\"");
    push_decimal(&mut suite, total as u128);
    suite.append("\" time=\"");
    push_seconds(&mut suite, elapsed_ms);
    suite.append("\" timestamp=\"");
    suite.append(timestamp);
    suite.append("\">");
    lines.push(suite);
    let ghost head = texts(lines@);
    assert(head =~= seq!["<testsuites>"@, suite_line(failed, total, elapsed_ms, timestamp@)]);
    let mut i: usize = 0;
    while i < results.len()
        invariant
            i <= results.len(),
            texts(lines@) == head + cases(results@.take(i as int)),
        decreases results.len() - i,
    {
        proof {
            assert(results@.take(i + 1).drop_last() =~= results@.take(i as int));
            assert(results@.take(i + 1).last() == results@[i as int]);
        }
        push_case(&mut lines, &results[i].0, &results[i].1);
        assert(texts(lines@) =~= head + cases(results@.take(i + 1)));
        i += 1;
    }
    assert(results@.take(i as int) =~= results@);
    let ghost body = texts(lines@);
    lines.push(String::from_str("<system-out/>"));
    lines.push(String::from_str("<system-err/>"));
    lines.push(String::from_str("</testsuite>"));
    lines.push(String::from_str("</testsuites>"));
    assert(texts(lines@) =~= body + seq![
        "<system-out/>"@,
        "<system-err/>"@,
        "</testsuite>"@,
        "</testsuites>"@,
    ]);
    lines
}

impl JUnitFormatter {
    /// The results that are kept, in the order in which they came in.
    pub closed spec fn results(&self) -> Seq<(TestDesc, TestResult)> {
        self.results@
    }

    /// A formatter that has kept no result.
    pub fn new() -> (r: Self)
        ensures
            r.results().len() == 0,
    {
        JUnitFormatter { results: Vec::new() }
    }

    /// The line that is written when the run starts: the one that opens the document.
    pub fn write_run_start(&mut self, _test_count: usize) -> (lines: Vec<String>)
        ensures
            texts(lines@) == seq![XML_PROLOGUE@],
            final(self).results() == old(self).results(),
    {
        let mut lines: Vec<String> = Vec::new();
        lines.push(String::from_str(XML_PROLOGUE));
        assert(texts(lines@) =~= seq![XML_PROLOGUE@]);
        lines
    }

    /// Nothing is written when a test starts.
    pub fn write_test_start(&mut self, _desc: &TestDesc) -> (lines: Vec<String>)
        ensures
            lines@.len() == 0,
            final(self).results() == old(self).results(),
    {
        Vec::new()
    }

    /// Nothing is written when a test is slow.
    pub fn write_timeout(&mut self, _desc: &TestDesc) -> (lines: Vec<String>)
        ensures
            lines@.len() == 0,
            final(self).results() == old(self).results(),
    {
        Vec::new()
    }

    /// Keeps a result for the report. Nothing is written.
    pub fn write_result(&mut self, desc: &TestDesc, result: &TestResult, _stdout: &[u8]) -> (lines:
        Vec<String>)
        ensures
            lines@.len() == 0,
            final(self).results() == old(self).results().push((*desc, *result)),
    {
        self.results.push((desc.clone(), result.clone()));
        Vec::new()
    }

    /// The lines of the report of a run that took `elapsed_ms` milliseconds,
    /// written at the time of the call, and whether the run was a success:
    /// whether no entry failed. The results that were kept are given up.
    pub fn write_run_finish(&mut self, state: &ConsoleTestState, elapsed_ms: u64) -> (r: (
        Vec<String>,
        bool,
    ))
        ensures
            exists|timestamp: Seq<char>|
                texts(r.0@) == #[trigger] report(
                    old(self).results(),
                    state.failed,
                    state.total,
                    elapsed_ms,
                    timestamp,
                ),
            r.1 == (state.failed == 0),
            final(self).results().len() == 0,
    {
        let timestamp = local_timestamp();
        let mut results: Vec<(TestDesc, TestResult)> = Vec::new();
        std::mem::swap(&mut results, &mut self.results);
        let lines = report_lines(
            &results,
            state.failed,
            state.total,
            elapsed_ms,
            timestamp.as_str(),
        );
        assert(texts(lines@) == report(
            old(self).results(),
            state.failed,
            state.total,
            elapsed_ms,
            timestamp@,
        ));
        (lines, state.failed == 0)
    }
}

} // verus!
