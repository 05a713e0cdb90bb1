use libtest::cli::{
    build_opts, env_threads, env_threads_complaint, get_concurrency, is_nightly, parse_opts,
    parse_usize, usage, IntErrorKind, ParsedArgs,
};
use libtest::{ColorConfig, OutputFormat, RunIgnored, TestOpts};

fn args(list: &[&str]) -> Vec<String> {
    list.iter().map(|s| s.to_string()).collect()
}

fn parsed() -> ParsedArgs {
    ParsedArgs {
        unstable: None,
        help: false,
        free: vec![],
        exclude_should_panic: false,
        include_ignored: false,
        ignored: false,
        quiet: false,
        exact: false,
        list: false,
        logfile: None,
        bench: false,
        test: false,
        nocapture: false,
        test_threads: None,
        color: None,
        format: None,
        skip: vec![],
    }
}

fn refused(r: Option<Result<TestOpts, String>>) -> String {
    match r {
        Some(Err(msg)) => msg,
        _ => panic!("the arguments should have been refused"),
    }
}

#[test]
fn parse_ignored_flag() {
    let args = vec![
        "progname".to_string(),
        "filter".to_string(),
        "--ignored".to_string(),
    ];
    let opts = parse_opts(&args, true, None).unwrap().unwrap();
    assert_eq!(opts.run_ignored, RunIgnored::Only);
}

#[test]
fn parse_include_ignored_flag() {
    let args = vec![
        "progname".to_string(),
        "filter".to_string(),
        "-Zunstable-options".to_string(),
        "--include-ignored".to_string(),
    ];
    let opts = parse_opts(&args, true, None).unwrap().unwrap();
    assert_eq!(opts.run_ignored, RunIgnored::Yes);
}

#[test]
fn first_free_arg_should_be_a_filter() {
    let opts = parse_opts(&args(&["progname", "filter", "other"]), true, None)
        .unwrap()
        .unwrap();
    assert_eq!(opts.filter, Some("filter".to_string()));
    let opts = parse_opts(&args(&["progname"]), true, None).unwrap().unwrap();
    assert_eq!(opts.filter, None);
    let opts = parse_opts(&[], true, None).unwrap().unwrap();
    assert_eq!(opts.filter, None);
}

#[test]
fn the_program_name_is_no_argument() {
    let opts = parse_opts(&args(&["--list"]), true, None).unwrap().unwrap();
    assert!(!opts.list);
    assert_eq!(opts.filter, None);
    let opts = parse_opts(&args(&["progname", "--list"]), true, None)
        .unwrap()
        .unwrap();
    assert!(opts.list);
}

#[test]
fn defaults_without_arguments() {
    let opts = parse_opts(&args(&["progname"]), true, None).unwrap().unwrap();
    assert!(!opts.list);
    assert!(!opts.filter_exact);
    assert!(!opts.exclude_should_panic);
    assert_eq!(opts.run_ignored, RunIgnored::No);
    assert!(opts.run_tests);
    assert!(!opts.bench_benchmarks);
    assert_eq!(opts.logfile, None);
    assert!(!opts.nocapture);
    assert_eq!(opts.color, ColorConfig::AutoColor);
    assert_eq!(opts.format, OutputFormat::Pretty);
    assert_eq!(opts.test_threads, None);
    assert!(opts.skip.is_empty());
}

#[test]
fn every_option_is_read() {
    let opts = parse_opts(
        &args(&[
            "progname",
            "-Z",
            "unstable-options",
            "--exclude-should-panic",
            "--bench",
            "--list",
            "--logfile",
            "log.txt",
            "--nocapture",
            "--test-threads=3",
            "--skip",
            "a",
            "--skip",
            "b",
            "--exact",
            "--color",
            "never",
            "--format",
            "json",
            "name",
        ]),
        true,
        None,
    )
    .unwrap()
    .unwrap();
    assert!(opts.exclude_should_panic);
    assert!(opts.bench_benchmarks);
    assert!(!opts.run_tests);
    assert!(opts.list);
    assert_eq!(opts.logfile, Some("log.txt".to_string()));
    assert!(opts.nocapture);
    assert_eq!(opts.test_threads, Some(3));
    assert_eq!(opts.skip, vec!["a".to_string(), "b".to_string()]);
    assert!(opts.filter_exact);
    assert_eq!(opts.color, ColorConfig::NeverColor);
    assert_eq!(opts.format, OutputFormat::Json);
    assert_eq!(opts.filter, Some("name".to_string()));
}

#[test]
fn bench_and_test_together_run_both() {
    let opts = parse_opts(&args(&["progname", "--bench", "--test"]), true, None)
        .unwrap()
        .unwrap();
    assert!(opts.bench_benchmarks);
    assert!(opts.run_tests);
}

#[test]
fn quiet_is_terse_unless_a_format_is_given() {
    let opts = parse_opts(&args(&["progname", "-q"]), true, None).unwrap().unwrap();
    assert_eq!(opts.format, OutputFormat::Terse);
    let opts = parse_opts(&args(&["progname", "--quiet", "--format=pretty"]), true, None)
        .unwrap()
        .unwrap();
    assert_eq!(opts.format, OutputFormat::Pretty);
    let opts = parse_opts(&args(&["progname", "--format", "terse"]), true, None)
        .unwrap()
        .unwrap();
    assert_eq!(opts.format, OutputFormat::Terse);
    let opts = parse_opts(&args(&["progname", "--color=always"]), true, None)
        .unwrap()
        .unwrap();
    assert_eq!(opts.color, ColorConfig::AlwaysColor);
    let opts = parse_opts(&args(&["progname", "--color=auto"]), true, None)
        .unwrap()
        .unwrap();
    assert_eq!(opts.color, ColorConfig::AutoColor);
}

#[test]
fn help_gives_no_options() {
    assert!(parse_opts(&args(&["progname", "-h"]), true, None).is_none());
    assert!(parse_opts(&args(&["progname", "--help", "--ignored"]), true, None).is_none());
}

#[test]
fn what_the_parser_refuses() {
    assert_eq!(
        refused(parse_opts(&args(&["progname", "--no-such-option"]), true, None)),
        "Unrecognized option: 'no-such-option'"
    );
    assert_eq!(
        refused(parse_opts(&args(&["progname", "--logfile"]), true, None)),
        "Argument to option 'logfile' missing"
    );
    assert_eq!(
        refused(parse_opts(&args(&["progname", "--list", "--list"]), true, None)),
        "Option 'list' given more than once"
    );
    assert_eq!(
        refused(parse_opts(&args(&["progname", "--list=yes"]), true, None)),
        "Option 'list' does not take an argument"
    );
}

#[test]
fn conflicts_and_gates() {
    assert_eq!(
        refused(parse_opts(
            &args(&["progname", "-Zunstable-options", "--include-ignored", "--ignored"]),
            true,
            None
        )),
        "the options --include-ignored and --ignored are mutually exclusive"
    );
    assert_eq!(
        refused(parse_opts(&args(&["progname", "--include-ignored"]), true, None)),
        "The \"include-ignored\" flag is only accepted on the nightly compiler"
    );
    assert_eq!(
        refused(parse_opts(&args(&["progname", "--exclude-should-panic"]), true, None)),
        "The \"exclude-should-panic\" flag is only accepted on the nightly compiler"
    );
    assert_eq!(
        refused(parse_opts(&args(&["progname", "--format", "json"]), true, None)),
        "The \"json\" format is only accepted on the nightly compiler"
    );
    assert_eq!(
        refused(parse_opts(&args(&["progname", "-Zunstable-options"]), false, None)),
        "the option `Z` is only accepted on the nightly compiler"
    );
    assert_eq!(
        refused(parse_opts(&args(&["progname", "-Z", "something"]), true, None)),
        "Unrecognized option to `Z`"
    );
    // The check of `-Z` comes before help, help before the other checks.
    assert_eq!(
        refused(parse_opts(&args(&["progname", "-h", "-Zother"]), true, None)),
        "Unrecognized option to `Z`"
    );
    assert!(parse_opts(&args(&["progname", "-h", "--include-ignored"]), true, None).is_none());
}

#[test]
fn bad_values() {
    assert_eq!(
        refused(parse_opts(&args(&["progname", "--test-threads", "0"]), true, None)),
        "argument for --test-threads must not be 0"
    );
    assert_eq!(
        refused(parse_opts(&args(&["progname", "--test-threads", "two"]), true, None)),
        "argument for --test-threads must be a number > 0 (error: invalid digit found in string)"
    );
    assert_eq!(
        refused(parse_opts(&args(&["progname", "--test-threads="]), true, None)),
        "argument for --test-threads must be a number > 0 (error: cannot parse integer from empty string)"
    );
    assert_eq!(
        refused(parse_opts(
            &args(&["progname", "--test-threads", "99999999999999999999999999"]),
            true,
            None
        )),
        "argument for --test-threads must be a number > 0 (error: number too large to fit in target type)"
    );
    assert_eq!(
        refused(parse_opts(&args(&["progname", "--color", "blue"]), true, None)),
        "argument for --color must be auto, always, or never (was blue)"
    );
    assert_eq!(
        refused(parse_opts(&args(&["progname", "--format", "xml"]), true, None)),
        "argument for --format must be pretty, terse, or json (was xml)"
    );
    // The number of threads is looked at before the colour, the colour before the format.
    assert_eq!(
        refused(parse_opts(
            &args(&["progname", "--format", "xml", "--color", "blue", "--test-threads", "0"]),
            true,
            None
        )),
        "argument for --test-threads must not be 0"
    );
    assert_eq!(
        refused(parse_opts(
            &args(&["progname", "--format", "xml", "--color", "blue"]),
            true,
            None
        )),
        "argument for --color must be auto, always, or never (was blue)"
    );
}

#[test]
fn nocapture_from_the_environment() {
    let with = |env: Option<&str>| {
        parse_opts(&args(&["progname"]), true, env.map(|s| s.to_string()))
            .unwrap()
            .unwrap()
            .nocapture
    };
    assert!(!with(None));
    assert!(!with(Some("0")));
    assert!(with(Some("1")));
    assert!(with(Some("")));
    assert!(with(Some("00")));
    let opts = parse_opts(&args(&["progname", "--nocapture"]), true, Some("0".to_string()))
        .unwrap()
        .unwrap();
    assert!(opts.nocapture);
}

#[test]
fn options_from_what_was_read() {
    let mut p = parsed();
    p.unstable = Some("unstable-options".to_string());
    p.include_ignored = true;
    p.free = vec!["f".to_string(), "g".to_string()];
    p.test_threads = Some("+12".to_string());
    let opts = build_opts(p, true, None).unwrap().unwrap();
    assert_eq!(opts.run_ignored, RunIgnored::Yes);
    assert_eq!(opts.filter, Some("f".to_string()));
    assert_eq!(opts.test_threads, Some(12));

    let mut p = parsed();
    p.ignored = true;
    p.help = true;
    assert!(build_opts(p, true, None).is_none());
}

#[test]
fn numbers() {
    assert_eq!(parse_usize("0"), Ok(0));
    assert_eq!(parse_usize("007"), Ok(7));
    assert_eq!(parse_usize("+42"), Ok(42));
    assert_eq!(parse_usize(&usize::MAX.to_string()), Ok(usize::MAX));
    assert_eq!(parse_usize(""), Err(IntErrorKind::Empty));
    assert_eq!(parse_usize("+"), Err(IntErrorKind::InvalidDigit));
    assert_eq!(parse_usize("-"), Err(IntErrorKind::InvalidDigit));
    assert_eq!(parse_usize("-1"), Err(IntErrorKind::InvalidDigit));
    assert_eq!(parse_usize("++1"), Err(IntErrorKind::InvalidDigit));
    assert_eq!(parse_usize("1 "), Err(IntErrorKind::InvalidDigit));
    assert_eq!(parse_usize("1_000"), Err(IntErrorKind::InvalidDigit));
    assert_eq!(
        parse_usize(&format!("{}0", usize::MAX)),
        Err(IntErrorKind::PosOverflow)
    );
    assert_eq!(
        parse_usize("99999999999999999999999999x"),
        Err(IntErrorKind::PosOverflow)
    );
    assert_eq!(
        parse_usize("x99999999999999999999999999"),
        Err(IntErrorKind::InvalidDigit)
    );
    for text in ["", "+", "-", "12", "+0", "1a", "99999999999999999999999999", "٣"] {
        assert_eq!(
            parse_usize(text).ok(),
            text.parse::<usize>().ok(),
            "{:?}",
            text
        );
    }
}

#[test]
fn threads_from_the_environment() {
    assert_eq!(env_threads("4"), Some(4));
    assert_eq!(env_threads("0"), None);
    assert_eq!(env_threads("four"), None);
    assert_eq!(env_threads(""), None);
    assert_eq!(get_concurrency(Some("4"), 8), 4);
    assert_eq!(get_concurrency(None, 8), 8);
    assert_eq!(
        env_threads_complaint("four"),
        "RUST_TEST_THREADS is `four`, should be a positive integer."
    );
}

#[test]
fn nightly_gate() {
    assert!(is_nightly(false, false));
    assert!(is_nightly(false, true));
    assert!(is_nightly(true, true));
    assert!(!is_nightly(true, false));
}

#[test]
fn usage_text() {
    let text = usage("prog");
    assert!(text.starts_with("Usage: prog [OPTIONS] [FILTER]\n\nOptions:\n"));
    assert!(text.contains("        --include-ignored \n                        Run ignored and not ignored tests\n"));
    assert!(text.contains("    -h, --help          Display this message (longer with --help)\n"));
    assert!(text.contains("        --logfile PATH  Write logs to the specified file instead of stdout\n"));
    assert!(text.contains("    -Z unstable-options Enable nightly-only flags:\n"));
    assert!(text.contains("\n\n\nThe FILTER string is tested against the name of all tests, and only those\n"));
    assert!(text.ends_with(
        "normal test runs. Running with --ignored or --include-ignored will run\n                     these tests."
    ));
}
