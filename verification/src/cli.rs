//! The command line: the options that it knows, and what a run is told by them.
use vstd::prelude::*;
use vstd::slice::slice_subrange;
use vstd::string::*;
use vstd::utf8::is_ascii_chars_encode_utf8;

use crate::optparse::{
    all_named, arguments, declared, fail_message, free_args, knows_names, matched, new_options,
    opt_present, opt_str, opt_strs, optflag, optmulti, optopt, parse, parse_outcome, plain_style,
    usage_of, usage_text, OptDecl, OptionTable, Parsed,
};
use crate::text::{str_eq, texts, utf8};
use crate::types::{
    opt_text, ColorConfig, OptRes, Options, OutputFormat, RunIgnored, TestOpts, TestOptsView,
};

verus! {

/// Why `-Z` is refused where what is not stable may not be asked for.
pub const MSG_Z_NIGHTLY: &'static str = "the option `Z` is only accepted on the nightly compiler";

/// Why an argument of `-Z` other than `unstable-options` is refused.
pub const MSG_Z_UNKNOWN: &'static str = "Unrecognized option to `Z`";

/// Why `--exclude-should-panic` is refused without `-Z unstable-options`.
pub const MSG_EXCLUDE_NIGHTLY: &'static str = "The \"exclude-should-panic\" flag is only accepted on the nightly compiler";

/// Why `--include-ignored` is refused without `-Z unstable-options`.
pub const MSG_INCLUDE_NIGHTLY: &'static str = "The \"include-ignored\" flag is only accepted on the nightly compiler";

/// Why `--include-ignored` and `--ignored` are refused together.
pub const MSG_EXCLUSIVE: &'static str = "the options --include-ignored and --ignored are mutually exclusive";

/// Why `--test-threads 0` is refused.
pub const MSG_THREADS_ZERO: &'static str = "argument for --test-threads must not be 0";

/// Why an argument of `--test-threads` that is no number is refused, up to the reason.
pub const MSG_THREADS_NUMBER: &'static str = "argument for --test-threads must be a number > 0 (error: ";

/// Why an unknown argument of `--color` is refused, up to the argument.
pub const MSG_COLOR: &'static str = "argument for --color must be auto, always, or never (was ";

/// Why an unknown argument of `--format` is refused, up to the argument.
pub const MSG_FORMAT: &'static str = "argument for --format must be pretty, terse, or json (was ";

/// Why `--format json` is refused without `-Z unstable-options`.
pub const MSG_JSON_NIGHTLY: &'static str = "The \"json\" format is only accepted on the nightly compiler";

/// Why an empty text is no number.
pub const MSG_EMPTY: &'static str = "cannot parse integer from empty string";

/// Why a text with something other than digits is no number.
pub const MSG_INVALID_DIGIT: &'static str = "invalid digit found in string";

/// Why a text of too many digits is no number.
pub const MSG_OVERFLOW: &'static str = "number too large to fit in target type";

/// What is said of a bad value of `RUST_TEST_THREADS`, up to the value.
pub const MSG_ENV_THREADS_HEAD: &'static str = "RUST_TEST_THREADS is `";

/// What is said of a bad value of `RUST_TEST_THREADS`, behind the value.
pub const MSG_ENV_THREADS_TAIL: &'static str = "`, should be a positive integer.";

/// The line of usage, up to the name of the program.
pub const USAGE_HEAD: &'static str = "Usage: ";

/// The line of usage, behind the name of the program.
pub const USAGE_TAIL: &'static str = " [OPTIONS] [FILTER]";

/// What follows the list of options in the usage text.
pub const USAGE_ABOUT: &'static str = "\n\nThe FILTER string is tested against the name of all tests, and only those\ntests whose names contain the filter are run.\n\nBy default, all tests are run in parallel. This can be altered with the\n--test-threads flag or the RUST_TEST_THREADS environment variable when running\ntests (set it to 1).\n\nAll tests have their standard output and standard error captured by default.\nThis can be overridden with the --nocapture flag or setting RUST_TEST_NOCAPTURE\nenvironment variable to a value other than \"0\". Logging is not captured by default.\n\nTest Attributes:\n\n    #[test]        - Indicates a function is a test to be run. This function\n                     takes no arguments.\n    #[bench]       - Indicates a function is a benchmark to be run. This\n                     function takes one argument (test::Bencher).\n    #[should_panic] - This function (also labeled with #[test]) will only pass if\n                     the code causes a panic (an assertion failure or panic!)\n                     A message may be provided, which the failure string must\n                     contain: #[should_panic(expected = \"foo\")].\n    #[ignore]      - When applied to a function which is already attributed as a\n                     test, then the test runner will ignore these tests during\n                     normal test runs. Running with --ignored or --include-ignored will run\n                     these tests.";

/// The options of the command line, in the order of the usage text.
pub open spec fn cli_options() -> Seq<OptDecl> {
    seq![
        OptDecl {
            short: ""@,
            long: "include-ignored"@,
            desc: "Run ignored and not ignored tests"@,
            hint: Seq::empty(),
            takes_arg: false,
            multi: false,
        },
        OptDecl {
            short: ""@,
            long: "ignored"@,
            desc: "Run only ignored tests"@,
            hint: Seq::empty(),
            takes_arg: false,
            multi: false,
        },
        OptDecl {
            short: ""@,
            long: "exclude-should-panic"@,
            desc: "Excludes tests marked as should_panic"@,
            hint: Seq::empty(),
            takes_arg: false,
            multi: false,
        },
        OptDecl {
            short: ""@,
            long: "test"@,
            desc: "Run tests and not benchmarks"@,
            hint: Seq::empty(),
            takes_arg: false,
            multi: false,
        },
        OptDecl {
            short: ""@,
            long: "bench"@,
            desc: "Run benchmarks instead of tests"@,
            hint: Seq::empty(),
            takes_arg: false,
            multi: false,
        },
        OptDecl {
            short: ""@,
            long: "list"@,
            desc: "List all tests and benchmarks"@,
            hint: Seq::empty(),
            takes_arg: false,
            multi: false,
        },
        OptDecl {
            short: "h"@,
            long: "help"@,
            desc: "Display this message (longer with --help)"@,
            hint: Seq::empty(),
            takes_arg: false,
            multi: false,
        },
        OptDecl {
            short: ""@,
            long: "logfile"@,
            desc: "Write logs to the specified file instead of stdout"@,
            hint: "PATH"@,
            takes_arg: true,
            multi: false,
        },
        OptDecl {
            short: ""@,
            long: "nocapture"@,
            desc: "don't capture stdout/stderr of each task, allow printing directly"@,
            hint: Seq::empty(),
            takes_arg: false,
            multi: false,
        },
        OptDecl {
            short: ""@,
            long: "test-threads"@,
            desc: "Number of threads used for running tests in parallel"@,
            hint: "n_threads"@,
            takes_arg: true,
            multi: false,
        },
        OptDecl {
            short: ""@,
            long: "skip"@,
            desc: "Skip tests whose names contain FILTER (this flag can be used multiple times)"@,
            hint: "FILTER"@,
            takes_arg: true,
            multi: true,
        },
        OptDecl {
            short: "q"@,
            long: "quiet"@,
            desc: "Display one character per test instead of one line. Alias to --format=terse"@,
            hint: Seq::empty(),
            takes_arg: false,
            multi: false,
        },
        OptDecl {
            short: ""@,
            long: "exact"@,
            desc: "Exactly match filters rather than by substring"@,
            hint: Seq::empty(),
            takes_arg: false,
            multi: false,
        },
        OptDecl {
            short: ""@,
            long: "color"@,
            desc: "Configure coloring of output:\n            auto   = colorize if stdout is a tty and tests are run on serially (default);\n            always = always colorize output;\n            never  = never colorize output;"@,
            hint: "auto|always|never"@,
            takes_arg: true,
            multi: false,
        },
        OptDecl {
            short: ""@,
            long: "format"@,
            desc: "Configure formatting of output:\n            pretty = Print verbose output;\n            terse  = Display one character per test;\n            json   = Output a json document"@,
            hint: "pretty|terse|json"@,
            takes_arg: true,
            multi: false,
        },
        OptDecl {
            short: "Z"@,
            long: ""@,
            desc: "Enable nightly-only flags:\n            unstable-options = Allow use of experimental features"@,
            hint: "unstable-options"@,
            takes_arg: true,
            multi: false,
        },
    ]
}

/// Declares the options of the command line.
pub fn optgroups() -> (opts: OptionTable)
    ensures
        declared(opts) == cli_options(),
        plain_style(opts),
        all_named(declared(opts)),
{
    proof {
        lemma_names_valid();
    }
    let mut opts = new_options();
    optflag(&mut opts, "", "include-ignored", "Run ignored and not ignored tests");
    optflag(&mut opts, "", "ignored", "Run only ignored tests");
    optflag(&mut opts, "", "exclude-should-panic", "Excludes tests marked as should_panic");
    optflag(&mut opts, "", "test", "Run tests and not benchmarks");
    optflag(&mut opts, "", "bench", "Run benchmarks instead of tests");
    optflag(&mut opts, "", "list", "List all tests and benchmarks");
    optflag(&mut opts, "h", "help", "Display this message (longer with --help)");
    optopt(&mut opts, "", "logfile", "Write logs to the specified file instead of stdout", "PATH");
    optflag(&mut opts, "", "nocapture", "don't capture stdout/stderr of each task, allow printing directly");
    optopt(&mut opts, "", "test-threads", "Number of threads used for running tests in parallel", "n_threads");
    optmulti(&mut opts, "", "skip", "Skip tests whose names contain FILTER (this flag can be used multiple times)", "FILTER");
    optflag(&mut opts, "q", "quiet", "Display one character per test instead of one line. Alias to --format=terse");
    optflag(&mut opts, "", "exact", "Exactly match filters rather than by substring");
    optopt(&mut opts, "", "color", "Configure coloring of output:\n            auto   = colorize if stdout is a tty and tests are run on serially (default);\n            always = always colorize output;\n            never  = never colorize output;", "auto|always|never");
    optopt(&mut opts, "", "format", "Configure formatting of output:\n            pretty = Print verbose output;\n            terse  = Display one character per test;\n            json   = Output a json document", "pretty|terse|json");
    optopt(&mut opts, "Z", "", "Enable nightly-only flags:\n            unstable-options = Allow use of experimental features", "unstable-options");
    proof {
        assert(declared(opts) =~= cli_options());
        lemma_cli_options_named();
    }
    opts
}

/// The names of the options are such that the options can be declared.
proof fn lemma_names_valid()
    ensures
        crate::optparse::valid_names(""@, "include-ignored"@),
        crate::optparse::valid_names(""@, "ignored"@),
        crate::optparse::valid_names(""@, "exclude-should-panic"@),
        crate::optparse::valid_names(""@, "test"@),
        crate::optparse::valid_names(""@, "bench"@),
        crate::optparse::valid_names(""@, "list"@),
        crate::optparse::valid_names("h"@, "help"@),
        crate::optparse::valid_names(""@, "logfile"@),
        crate::optparse::valid_names(""@, "nocapture"@),
        crate::optparse::valid_names(""@, "test-threads"@),
        crate::optparse::valid_names(""@, "skip"@),
        crate::optparse::valid_names("q"@, "quiet"@),
        crate::optparse::valid_names(""@, "exact"@),
        crate::optparse::valid_names(""@, "color"@),
        crate::optparse::valid_names(""@, "format"@),
        crate::optparse::valid_names("Z"@, ""@),
{
    reveal_strlit("");
    is_ascii_chars_encode_utf8(""@);
    reveal_strlit("Z");
    is_ascii_chars_encode_utf8("Z"@);
    reveal_strlit("bench");
    is_ascii_chars_encode_utf8("bench"@);
    reveal_strlit("color");
    is_ascii_chars_encode_utf8("color"@);
    reveal_strlit("exact");
    is_ascii_chars_encode_utf8("exact"@);
    reveal_strlit("exclude-should-panic");
    is_ascii_chars_encode_utf8("exclude-should-panic"@);
    reveal_strlit("format");
    is_ascii_chars_encode_utf8("format"@);
    reveal_strlit("h");
    is_ascii_chars_encode_utf8("h"@);
    reveal_strlit("help");
    is_ascii_chars_encode_utf8("help"@);
    reveal_strlit("ignored");
    is_ascii_chars_encode_utf8("ignored"@);
    reveal_strlit("include-ignored");
    is_ascii_chars_encode_utf8("include-ignored"@);
    reveal_strlit("list");
    is_ascii_chars_encode_utf8("list"@);
    reveal_strlit("logfile");
    is_ascii_chars_encode_utf8("logfile"@);
    reveal_strlit("nocapture");
    is_ascii_chars_encode_utf8("nocapture"@);
    reveal_strlit("q");
    is_ascii_chars_encode_utf8("q"@);
    reveal_strlit("quiet");
    is_ascii_chars_encode_utf8("quiet"@);
    reveal_strlit("skip");
    is_ascii_chars_encode_utf8("skip"@);
    reveal_strlit("test");
    is_ascii_chars_encode_utf8("test"@);
    reveal_strlit("test-threads");
    is_ascii_chars_encode_utf8("test-threads"@);
}

/// Every option of the command line has a name.
proof fn lemma_cli_options_named()
    ensures
        all_named(cli_options()),
{
    reveal_strlit("include-ignored");
    reveal_strlit("ignored");
    reveal_strlit("exclude-should-panic");
    reveal_strlit("test");
    reveal_strlit("bench");
    reveal_strlit("list");
    reveal_strlit("help");
    reveal_strlit("logfile");
    reveal_strlit("nocapture");
    reveal_strlit("test-threads");
    reveal_strlit("skip");
    reveal_strlit("quiet");
    reveal_strlit("exact");
    reveal_strlit("color");
    reveal_strlit("format");
    reveal_strlit("Z");
    let t = cli_options();
    assert(t[0].short.len() > 0 || t[0].long.len() > 0);
    assert(t[1].short.len() > 0 || t[1].long.len() > 0);
    assert(t[2].short.len() > 0 || t[2].long.len() > 0);
    assert(t[3].short.len() > 0 || t[3].long.len() > 0);
    assert(t[4].short.len() > 0 || t[4].long.len() > 0);
    assert(t[5].short.len() > 0 || t[5].long.len() > 0);
    assert(t[6].short.len() > 0 || t[6].long.len() > 0);
    assert(t[7].short.len() > 0 || t[7].long.len() > 0);
    assert(t[8].short.len() > 0 || t[8].long.len() > 0);
    assert(t[9].short.len() > 0 || t[9].long.len() > 0);
    assert(t[10].short.len() > 0 || t[10].long.len() > 0);
    assert(t[11].short.len() > 0 || t[11].long.len() > 0);
    assert(t[12].short.len() > 0 || t[12].long.len() > 0);
    assert(t[13].short.len() > 0 || t[13].long.len() > 0);
    assert(t[14].short.len() > 0 || t[14].long.len() > 0);
    assert(t[15].short.len() > 0 || t[15].long.len() > 0);
}

/// What the command line holds, option by option, as the parser read it.
pub struct ParsedArgs {
    /// The argument of `-Z`.
    pub unstable: Option<String>,
    pub help: bool,
    /// The arguments that belong to no option.
    pub free: Vec<String>,
    pub exclude_should_panic: bool,
    pub include_ignored: bool,
    pub ignored: bool,
    pub quiet: bool,
    pub exact: bool,
    pub list: bool,
    pub logfile: Option<String>,
    pub bench: bool,
    pub test: bool,
    pub nocapture: bool,
    pub test_threads: Option<String>,
    pub color: Option<String>,
    pub format: Option<String>,
    pub skip: Vec<String>,
}

/// What the command line holds as plain values: every text as its characters.
pub struct ParsedArgsView {
    pub unstable: Option<Seq<char>>,
    pub help: bool,
    pub free: Seq<Seq<char>>,
    pub exclude_should_panic: bool,
    pub include_ignored: bool,
    pub ignored: bool,
    pub quiet: bool,
    pub exact: bool,
    pub list: bool,
    pub logfile: Option<Seq<char>>,
    pub bench: bool,
    pub test: bool,
    pub nocapture: bool,
    pub test_threads: Option<Seq<char>>,
    pub color: Option<Seq<char>>,
    pub format: Option<Seq<char>>,
    pub skip: Seq<Seq<char>>,
}

impl View for ParsedArgs {
    type V = ParsedArgsView;

    open spec fn view(&self) -> ParsedArgsView {
        ParsedArgsView {
            unstable: opt_text(self.unstable),
            help: self.help,
            free: texts(self.free@),
            exclude_should_panic: self.exclude_should_panic,
            include_ignored: self.include_ignored,
            ignored: self.ignored,
            quiet: self.quiet,
            exact: self.exact,
            list: self.list,
            logfile: opt_text(self.logfile),
            bench: self.bench,
            test: self.test,
            nocapture: self.nocapture,
            test_threads: opt_text(self.test_threads),
            color: opt_text(self.color),
            format: opt_text(self.format),
            skip: texts(self.skip@),
        }
    }
}

/// Whether the option was given.
pub open spec fn is_given(p: Parsed, name: Seq<char>) -> bool {
    p.values[name].len() > 0
}

/// The argument of the first occurrence of the option, if the option was
/// given and that occurrence has one.
pub open spec fn first_argument(p: Parsed, name: Seq<char>) -> Option<Seq<char>> {
    if p.values[name].len() > 0 {
        p.values[name][0]
    } else {
        None
    }
}

/// What the command line holds, option by option.
pub open spec fn args_of(p: Parsed) -> ParsedArgsView {
    ParsedArgsView {
        unstable: first_argument(p, "Z"@),
        help: is_given(p, "h"@),
        free: p.free,
        exclude_should_panic: is_given(p, "exclude-should-panic"@),
        include_ignored: is_given(p, "include-ignored"@),
        ignored: is_given(p, "ignored"@),
        quiet: is_given(p, "quiet"@),
        exact: is_given(p, "exact"@),
        list: is_given(p, "list"@),
        logfile: first_argument(p, "logfile"@),
        bench: is_given(p, "bench"@),
        test: is_given(p, "test"@),
        nocapture: is_given(p, "nocapture"@),
        test_threads: first_argument(p, "test-threads"@),
        color: first_argument(p, "color"@),
        format: first_argument(p, "format"@),
        skip: arguments(p.values["skip"@]),
    }
}

/// Reads the options of the command line out of what the parser matched.
pub fn read_matches(m: &getopts::Matches) -> (r: ParsedArgs)
    requires
        knows_names(matched(*m), cli_options()),
    ensures
        r@ == args_of(matched(*m)),
{
    proof {
        let t = cli_options();
        reveal_strlit("include-ignored");
        assert(t[0].long == "include-ignored"@);
        reveal_strlit("ignored");
        assert(t[1].long == "ignored"@);
        reveal_strlit("exclude-should-panic");
        assert(t[2].long == "exclude-should-panic"@);
        reveal_strlit("test");
        assert(t[3].long == "test"@);
        reveal_strlit("bench");
        assert(t[4].long == "bench"@);
        reveal_strlit("list");
        assert(t[5].long == "list"@);
        reveal_strlit("help");
        assert(t[6].long == "help"@);
        reveal_strlit("logfile");
        assert(t[7].long == "logfile"@);
        reveal_strlit("nocapture");
        assert(t[8].long == "nocapture"@);
        reveal_strlit("test-threads");
        assert(t[9].long == "test-threads"@);
        reveal_strlit("skip");
        assert(t[10].long == "skip"@);
        reveal_strlit("quiet");
        assert(t[11].long == "quiet"@);
        reveal_strlit("exact");
        assert(t[12].long == "exact"@);
        reveal_strlit("color");
        assert(t[13].long == "color"@);
        reveal_strlit("format");
        assert(t[14].long == "format"@);
        reveal_strlit("Z");
        assert(t[15].short == "Z"@);
        reveal_strlit("h");
        assert(t[6].short == "h"@);
    }
    ParsedArgs {
        unstable: opt_str(m, "Z"),
        help: opt_present(m, "h"),
        free: free_args(m),
        exclude_should_panic: opt_present(m, "exclude-should-panic"),
        include_ignored: opt_present(m, "include-ignored"),
        ignored: opt_present(m, "ignored"),
        quiet: opt_present(m, "quiet"),
        exact: opt_present(m, "exact"),
        list: opt_present(m, "list"),
        logfile: opt_str(m, "logfile"),
        bench: opt_present(m, "bench"),
        test: opt_present(m, "test"),
        nocapture: opt_present(m, "nocapture"),
        test_threads: opt_str(m, "test-threads"),
        color: opt_str(m, "color"),
        format: opt_str(m, "format"),
        skip: opt_strs(m, "skip"),
    }
}

/// Why a text is no number.
#[derive(Clone, Copy, Debug, PartialEq, Eq, Structural)]
pub enum IntErrorKind {
    /// The text is empty.
    Empty,
    /// The text holds something that is no digit, or only a sign.
    InvalidDigit,
    /// The number is greater than the machine's word holds.
    PosOverflow,
}

/// The byte is a decimal digit.
pub open spec fn is_digit(b: u8) -> bool {
    48 <= b <= 57
}

/// The number that the digits from index `i` on make behind the number
/// `acc`, read from the left: the first byte that is no digit, or with which
/// the number gets too large, ends the reading.
pub open spec fn read_digits(b: Seq<u8>, i: int, acc: int) -> Result<usize, IntErrorKind>
    decreases b.len() - i,
{
    if i >= b.len() {
        Ok(acc as usize)
    } else if !is_digit(b[i]) {
        Err(IntErrorKind::InvalidDigit)
    } else if acc * 10 + (b[i] - 48) > usize::MAX {
        Err(IntErrorKind::PosOverflow)
    } else {
        read_digits(b, i + 1, acc * 10 + (b[i] - 48))
    }
}

/// The number that a text stands for: decimal digits, behind a plus sign or
/// none.
pub open spec fn parse_usize_spec(b: Seq<u8>) -> Result<usize, IntErrorKind> {
    if b.len() == 0 {
        Err(IntErrorKind::Empty)
    } else if b.len() == 1 && (b[0] == 43 || b[0] == 45) {
        Err(IntErrorKind::InvalidDigit)
    } else if b[0] == 43 {
        read_digits(b, 1, 0)
    } else {
        read_digits(b, 0, 0)
    }
}

/// Why a text is no number, in words.
pub open spec fn int_error_text(k: IntErrorKind) -> Seq<char> {
    match k {
        IntErrorKind::Empty => MSG_EMPTY@,
        IntErrorKind::InvalidDigit => MSG_INVALID_DIGIT@,
        IntErrorKind::PosOverflow => MSG_OVERFLOW@,
    }
}

/// Reads a number in decimal digits.
pub fn parse_usize(s: &str) -> (r: Result<usize, IntErrorKind>)
    ensures
        r == parse_usize_spec(utf8(s@)),
{
    let b = s.as_bytes();
    if b.len() == 0 {
        return Err(IntErrorKind::Empty);
    }
    if b.len() == 1 && (b[0] == 43 || b[0] == 45) {
        return Err(IntErrorKind::InvalidDigit);
    }
    let mut i: usize = if b[0] == 43 {
        1
    } else {
        0
    };
    let mut acc: usize = 0;
    while i < b.len()
        invariant
            i <= b.len(),
            b@ == utf8(s@),
            parse_usize_spec(b@) == read_digits(b@, i as int, acc as int),
        decreases b.len() - i,
    {
        let c: u8 = b[i];
        if c < 48 || c > 57 {
            return Err(IntErrorKind::InvalidDigit);
        }
        let d: usize = (c - 48) as usize;
        let next = match acc.checked_mul(10) {
            Some(m) => m.checked_add(d),
            None => None,
        };
        match next {
            Some(n) => {
                acc = n;
            },
            None => {
                return Err(IntErrorKind::PosOverflow);
            },
        }
        i += 1;
    }
    Ok(acc)
}

/// The number of threads that the environment asks for, if it asks for a
/// number that is not 0.
pub open spec fn env_threads_spec(value: Seq<char>) -> Option<usize> {
    match parse_usize_spec(utf8(value)) {
        Ok(n) => if n > 0 {
            Some(n)
        } else {
            None
        },
        Err(_) => None,
    }
}

/// The number of threads that the value of `RUST_TEST_THREADS` asks for:
/// `None` if the value is no number or 0.
pub fn env_threads(value: &str) -> (r: Option<usize>)
    ensures
        r == env_threads_spec(value@),
{
    match parse_usize(value) {
        Ok(n) => if n > 0 {
            Some(n)
        } else {
            None
        },
        Err(_) => None,
    }
}

/// What is said of a value of `RUST_TEST_THREADS` that is no number or 0.
pub fn env_threads_complaint(value: &str) -> (r: String)
    ensures
        r@ == MSG_ENV_THREADS_HEAD@ + value@ + MSG_ENV_THREADS_TAIL@,
{
    let mut text = String::from_str(MSG_ENV_THREADS_HEAD);
    text.append(value);
    text.append(MSG_ENV_THREADS_TAIL);
    text
}

/// How many entries run at a time: as many as `RUST_TEST_THREADS` says, if
/// it is set, else as many as the machine has processors.
pub fn get_concurrency(env_value: Option<&str>, num_cpus: usize) -> (r: usize)
    requires
        env_value matches Some(v) ==> env_threads_spec(v@) is Some,
    ensures
        r == match env_value {
            Some(v) => env_threads_spec(v@)->Some_0,
            None => num_cpus,
        },
{
    match env_value {
        Some(v) => match env_threads(v) {
            Some(n) => n,
            None => num_cpus,
        },
        None => num_cpus,
    }
}

/// Whether features that are not stable yet may be used: unless they were
/// disabled when the library was built, and always while bootstrapping.
pub fn is_nightly(disable_unstable_features: bool, bootstrap: bool) -> (r: bool)
    ensures
        r == (bootstrap || !disable_unstable_features),
{
    bootstrap || !disable_unstable_features
}

/// The command line allows what is not stable yet.
pub open spec fn allows_unstable(a: ParsedArgsView) -> bool {
    a.unstable == Some("unstable-options"@)
}

/// The number of threads that `--test-threads` asks for, or why its argument
/// is refused.
pub open spec fn threads_spec(arg: Option<Seq<char>>) -> Result<Option<usize>, Seq<char>> {
    match arg {
        None => Ok(None),
        Some(t) => match parse_usize_spec(utf8(t)) {
            Ok(n) => if n == 0 {
                Err(MSG_THREADS_ZERO@)
            } else {
                Ok(Some(n))
            },
            Err(k) => Err(MSG_THREADS_NUMBER@ + int_error_text(k) + ")"@),
        },
    }
}

/// What `--color` asks for, or why its argument is refused.
pub open spec fn color_spec(arg: Option<Seq<char>>) -> Result<ColorConfig, Seq<char>> {
    match arg {
        None => Ok(ColorConfig::AutoColor),
        Some(v) => if v == "auto"@ {
            Ok(ColorConfig::AutoColor)
        } else if v == "always"@ {
            Ok(ColorConfig::AlwaysColor)
        } else if v == "never"@ {
            Ok(ColorConfig::NeverColor)
        } else {
            Err(MSG_COLOR@ + v + ")"@)
        },
    }
}

/// What `--format` and `--quiet` ask for, or why the argument is refused.
pub open spec fn format_spec(arg: Option<Seq<char>>, quiet: bool, unstable: bool) -> Result<
    OutputFormat,
    Seq<char>,
> {
    match arg {
        None => if quiet {
            Ok(OutputFormat::Terse)
        } else {
            Ok(OutputFormat::Pretty)
        },
        Some(v) => if v == "pretty"@ {
            Ok(OutputFormat::Pretty)
        } else if v == "terse"@ {
            Ok(OutputFormat::Terse)
        } else if v == "json"@ {
            if unstable {
                Ok(OutputFormat::Json)
            } else {
                Err(MSG_JSON_NIGHTLY@)
            }
        } else {
            Err(MSG_FORMAT@ + v + ")"@)
        },
    }
}

/// Which ignored tests run.
pub open spec fn run_ignored_spec(include_ignored: bool, ignored: bool) -> RunIgnored {
    if include_ignored {
        RunIgnored::Yes
    } else if ignored {
        RunIgnored::Only
    } else {
        RunIgnored::No
    }
}

/// The environment asks for output that is not captured: the variable is set
/// to something other than `0`.
pub open spec fn env_nocapture(value: Option<Seq<char>>) -> bool {
    value matches Some(v) && v != "0"@
}

/// The options of a run, if the command line is in order and the options
/// agree.
pub open spec fn settled(a: ParsedArgsView, nocapture_env: Option<Seq<char>>) -> Result<
    TestOptsView,
    Seq<char>,
> {
    match threads_spec(a.test_threads) {
        Err(t) => Err(t),
        Ok(test_threads) => match color_spec(a.color) {
            Err(t) => Err(t),
            Ok(color) => match format_spec(a.format, a.quiet, allows_unstable(a)) {
                Err(t) => Err(t),
                Ok(format) => Ok(
                    TestOptsView {
                        list: a.list,
                        filter: if a.free.len() == 0 {
                            None
                        } else {
                            Some(a.free[0])
                        },
                        filter_exact: a.exact,
                        exclude_should_panic: a.exclude_should_panic,
                        run_ignored: run_ignored_spec(a.include_ignored, a.ignored),
                        run_tests: !a.bench || a.test,
                        bench_benchmarks: a.bench,
                        logfile: a.logfile,
                        nocapture: a.nocapture || env_nocapture(nocapture_env),
                        color,
                        format,
                        test_threads,
                        skip: a.skip,
                        options: Options::plain(),
                    },
                ),
            },
        },
    }
}

/// What a run is told by its command line: nothing if help is asked for,
/// else its options or why the command line is refused.
///
/// What is not stable is refused unless `-Z unstable-options` is given, and
/// that is refused unless `nightly` is set. The checks are made in this
/// order, and the first that fails decides.
pub open spec fn build_spec(a: ParsedArgsView, nightly: bool, nocapture_env: Option<Seq<char>>) -> Option<
    Result<TestOptsView, Seq<char>>,
> {
    if a.unstable is Some && !nightly {
        Some(Err(MSG_Z_NIGHTLY@))
    } else if a.unstable is Some && !allows_unstable(a) {
        Some(Err(MSG_Z_UNKNOWN@))
    } else if a.help {
        None
    } else if !allows_unstable(a) && a.exclude_should_panic {
        Some(Err(MSG_EXCLUDE_NIGHTLY@))
    } else if !allows_unstable(a) && a.include_ignored {
        Some(Err(MSG_INCLUDE_NIGHTLY@))
    } else if a.include_ignored && a.ignored {
        Some(Err(MSG_EXCLUSIVE@))
    } else {
        Some(settled(a, nocapture_env))
    }
}

/// The result of parsing as plain values.
pub open spec fn opt_res_view(r: Option<OptRes>) -> Option<Result<TestOptsView, Seq<char>>> {
    match r {
        None => None,
        Some(Ok(o)) => Some(Ok(o@)),
        Some(Err(t)) => Some(Err(t@)),
    }
}

fn threads_from(arg: &Option<String>) -> (r: Result<Option<usize>, String>)
    ensures
        match r {
            Ok(n) => threads_spec(opt_text(*arg)) == Ok::<Option<usize>, Seq<char>>(n),
            Err(t) => threads_spec(opt_text(*arg)) == Err::<Option<usize>, Seq<char>>(t@),
        },
{
    match arg {
        None => Ok(None),
        Some(n_str) => match parse_usize(n_str.as_str()) {
            Ok(n) => if n == 0 {
                Err(String::from_str(MSG_THREADS_ZERO))
            } else {
                Ok(Some(n))
            },
            Err(k) => {
                let mut text = String::from_str(MSG_THREADS_NUMBER);
                text.append(
                    match k {
                        IntErrorKind::Empty => MSG_EMPTY,
                        IntErrorKind::InvalidDigit => MSG_INVALID_DIGIT,
                        IntErrorKind::PosOverflow => MSG_OVERFLOW,
                    },
                );
                text.append(")");
                Err(text)
            },
        },
    }
}

fn color_from(arg: &Option<String>) -> (r: Result<ColorConfig, String>)
    ensures
        match r {
            Ok(c) => color_spec(opt_text(*arg)) == Ok::<ColorConfig, Seq<char>>(c),
            Err(t) => color_spec(opt_text(*arg)) == Err::<ColorConfig, Seq<char>>(t@),
        },
{
    match arg {
        None => Ok(ColorConfig::AutoColor),
        Some(v) => if str_eq(v.as_str(), "auto") {
            Ok(ColorConfig::AutoColor)
        } else if str_eq(v.as_str(), "always") {
            Ok(ColorConfig::AlwaysColor)
        } else if str_eq(v.as_str(), "never") {
            Ok(ColorConfig::NeverColor)
        } else {
            let mut text = String::from_str(MSG_COLOR);
            text.append(v.as_str());
            text.append(")");
            Err(text)
        },
    }
}

fn format_from(arg: &Option<String>, quiet: bool, unstable: bool) -> (r: Result<
    OutputFormat,
    String,
>)
    ensures
        match r {
            Ok(f) => format_spec(opt_text(*arg), quiet, unstable) == Ok::<OutputFormat, Seq<char>>(
                f,
            ),
            Err(t) => format_spec(opt_text(*arg), quiet, unstable) == Err::<
                OutputFormat,
                Seq<char>,
            >(t@),
        },
{
    match arg {
        None => if quiet {
            Ok(OutputFormat::Terse)
        } else {
            Ok(OutputFormat::Pretty)
        },
        Some(v) => if str_eq(v.as_str(), "pretty") {
            Ok(OutputFormat::Pretty)
        } else if str_eq(v.as_str(), "terse") {
            Ok(OutputFormat::Terse)
        } else if str_eq(v.as_str(), "json") {
            if unstable {
                Ok(OutputFormat::Json)
            } else {
                Err(String::from_str(MSG_JSON_NIGHTLY))
            }
        } else {
            let mut text = String::from_str(MSG_FORMAT);
            text.append(v.as_str());
            text.append(")");
            Err(text)
        },
    }
}

/// Settles the options of a run from what the command line holds.
///
/// `nightly` says whether what is not stable may be asked for at all,
/// `nocapture_env` is the value of `RUST_TEST_NOCAPTURE`, if it is set.
pub fn build_opts(parsed: ParsedArgs, nightly: bool, nocapture_env: Option<String>) -> (r: Option<
    OptRes,
>)
    ensures
        opt_res_view(r) == build_spec(parsed@, nightly, opt_text(nocapture_env)),
{
    let mut allow_unstable = false;
    if let Some(opt) = &parsed.unstable {
        if !nightly {
            return Some(Err(String::from_str(MSG_Z_NIGHTLY)));
        }
        if str_eq(opt.as_str(), "unstable-options") {
            allow_unstable = true;
        } else {
            return Some(Err(String::from_str(MSG_Z_UNKNOWN)));
        }
    }
    assert(allow_unstable == allows_unstable(parsed@));
    if parsed.help {
        return None;
    }
    if !allow_unstable && parsed.exclude_should_panic {
        return Some(Err(String::from_str(MSG_EXCLUDE_NIGHTLY)));
    }
    if !allow_unstable && parsed.include_ignored {
        return Some(Err(String::from_str(MSG_INCLUDE_NIGHTLY)));
    }
    let run_ignored = match (parsed.include_ignored, parsed.ignored) {
        (true, true) => {
            return Some(Err(String::from_str(MSG_EXCLUSIVE)));
        },
        (true, false) => RunIgnored::Yes,
        (false, true) => RunIgnored::Only,
        (false, false) => RunIgnored::No,
    };
    let mut nocapture = parsed.nocapture;
    if !nocapture {
        nocapture = match &nocapture_env {
            Some(val) => !str_eq(val.as_str(), "0"),
            None => false,
        };
    }
    let test_threads = match threads_from(&parsed.test_threads) {
        Ok(n) => n,
        Err(t) => {
            return Some(Err(t));
        },
    };
    let color = match color_from(&parsed.color) {
        Ok(c) => c,
        Err(t) => {
            return Some(Err(t));
        },
    };
    let format = match format_from(&parsed.format, parsed.quiet, allow_unstable) {
        Ok(f) => f,
        Err(t) => {
            return Some(Err(t));
        },
    };
    let ParsedArgs { free, list, exact, exclude_should_panic, logfile, bench, test, skip, .. } =
        parsed;
    let filter = if free.len() == 0 {
        None
    } else {
        Some(free[0].clone())
    };
    let test_opts = TestOpts {
        list,
        filter,
        filter_exact: exact,
        exclude_should_panic,
        run_ignored,
        run_tests: !bench || test,
        bench_benchmarks: bench,
        logfile,
        nocapture,
        color,
        format,
        test_threads,
        skip,
        options: Options::new(),
    };
    assert(test_opts@.skip =~= parsed@.skip);
    Some(Ok(test_opts))
}

/// The arguments behind the name of the program.
pub open spec fn behind_program(args: Seq<Seq<char>>) -> Seq<Seq<char>> {
    if args.len() >= 1 {
        args.skip(1)
    } else {
        args
    }
}

/// What a run is told by its arguments: nothing if help is asked for, else
/// its options or why the arguments are refused.
pub open spec fn parse_opts_spec(
    args: Seq<Seq<char>>,
    nightly: bool,
    nocapture_env: Option<Seq<char>>,
) -> Option<Result<TestOptsView, Seq<char>>> {
    match parse_outcome(cli_options(), behind_program(args)) {
        Err(t) => Some(Err(t)),
        Ok(p) => build_spec(args_of(p), nightly, nocapture_env),
    }
}

/// Parses command line arguments into test options.
///
/// The first argument is the name of the program. `nightly` says whether
/// what is not stable may be asked for at all, `nocapture_env` is the value
/// of `RUST_TEST_NOCAPTURE`, if it is set. `None` comes back where help is
/// asked for: the caller prints the usage text.
pub fn parse_opts(args: &[String], nightly: bool, nocapture_env: Option<String>) -> (r: Option<
    OptRes,
>)
    ensures
        opt_res_view(r) == parse_opts_spec(texts(args@), nightly, opt_text(nocapture_env)),
{
    let opts = optgroups();
    let rest = if args.len() >= 1 {
        slice_subrange(args, 1, args.len())
    } else {
        args
    };
    assert(texts(rest@) =~= behind_program(texts(args@)));
    let matches = match parse(&opts, rest) {
        Ok(m) => m,
        Err(f) => {
            return Some(Err(fail_message(&f)));
        },
    };
    build_opts(read_matches(&matches), nightly, nocapture_env)
}

/// The usage text for the program `binary`: the line of usage, the options,
/// and what is said about filters, threads, captured output and attributes.
pub fn usage(binary: &str) -> (r: String)
    ensures
        r@ == usage_text(cli_options(), USAGE_HEAD@ + binary@ + USAGE_TAIL@) + USAGE_ABOUT@,
{
    let opts = optgroups();
    let mut message = String::from_str(USAGE_HEAD);
    message.append(binary);
    message.append(USAGE_TAIL);
    let mut text = usage_of(&opts, message.as_str());
    text.append(USAGE_ABOUT);
    text
}

} // verus!
