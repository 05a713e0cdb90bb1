//! A harness for unit tests and micro-benchmarks: it filters and orders the
//! registered entries, decides what runs when, classifies how each entry
//! ended, and keeps count of the outcomes.
pub mod bench;
pub mod cli;
pub mod clock;
pub mod console;
pub mod entry;
pub mod events;
pub mod executor;
pub mod filter;
pub mod fmt;
pub mod junit;
pub mod optparse;
pub mod run_loop;
pub mod stats;
pub mod text;
pub mod timeout_table;
pub mod types;
pub mod vecs;

pub use crate::bench::{convert_benchmarks_to_tests, iter, run_once, BenchMode, Bencher};
pub use crate::cli::{get_concurrency, parse_opts};
pub use crate::console::{
    fmt_bench_samples, list_tests_console, use_color, ConsoleTestState, Metric, MetricMap,
};
pub use crate::executor::{calc_result, run_test, Execution};
pub use crate::filter::filter_tests;
pub use crate::fmt::fmt_thousands_sep;
pub use crate::run_loop::{run_tests, RunLoop, Step};
pub use crate::types::{
    BenchSamples, ColorConfig, Concurrent, MonitorMsg, NamePadding, OptRes, Options, OutputFormat,
    RunIgnored, ShouldPanic, TDynBenchFn, TDynTestFn, TStaticBenchFn, TStaticTestFn, TestDesc,
    TestDescAndFn, TestEvent, TestFn, TestName, TestOpts, TestResult,
};
