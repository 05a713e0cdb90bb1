use libtest::{
    filter_tests, RunIgnored, ShouldPanic, TestDesc, TestDescAndFn, TestFn, TestName,
    TestOpts,
};

fn one_ignored_one_unignored_test() -> Vec<TestDescAndFn> {
    vec![
        TestDescAndFn {
            desc: TestDesc {
                name: TestName::StaticTestName("1"),
                ignore: true,
                should_panic: ShouldPanic::No,
                allow_fail: false,
            },
            testfn: TestFn::DynTestFn(Box::new(move || {})),
        },
        TestDescAndFn {
            desc: TestDesc {
                name: TestName::StaticTestName("2"),
                ignore: false,
                should_panic: ShouldPanic::No,
                allow_fail: false,
            },
            testfn: TestFn::DynTestFn(Box::new(move || {})),
        },
    ]
}

fn named(names: &[&'static str]) -> Vec<TestDescAndFn> {
    names
        .iter()
        .map(|name| TestDescAndFn {
            desc: TestDesc {
                name: TestName::StaticTestName(name),
                ignore: false,
                should_panic: ShouldPanic::No,
                allow_fail: false,
            },
            testfn: TestFn::DynTestFn(Box::new(move || {})),
        })
        .collect()
}

fn names_of(tests: &[TestDescAndFn]) -> Vec<String> {
    tests.iter().map(|t| t.desc.name.to_string()).collect()
}

#[test]
pub fn filter_for_ignored_option() {
    // When we run ignored tests the test filter should filter out all the
    // unignored tests and flip the ignore flag on the rest to false

    let mut opts = TestOpts::new();
    opts.run_tests = true;
    opts.run_ignored = RunIgnored::Only;

    let tests = one_ignored_one_unignored_test();
    let filtered = filter_tests(&opts, tests);

    assert_eq!(filtered.len(), 1);
    assert_eq!(filtered[0].desc.name.to_string(), "1");
    assert!(!filtered[0].desc.ignore);
}

#[test]
pub fn run_include_ignored_option() {
    // When we "--include-ignored" tests, the ignore flag should be set to false on
    // all tests and no test filtered out

    let mut opts = TestOpts::new();
    opts.run_tests = true;
    opts.run_ignored = RunIgnored::Yes;

    let tests = one_ignored_one_unignored_test();
    let filtered = filter_tests(&opts, tests);

    assert_eq!(filtered.len(), 2);
    assert!(!filtered[0].desc.ignore);
    assert!(!filtered[1].desc.ignore);
}

#[test]
pub fn exclude_should_panic_option() {
    let mut opts = TestOpts::new();
    opts.run_tests = true;
    opts.exclude_should_panic = true;

    let mut tests = one_ignored_one_unignored_test();
    tests.push(TestDescAndFn {
        desc: TestDesc {
            name: TestName::StaticTestName("3"),
            ignore: false,
            should_panic: ShouldPanic::Yes,
            allow_fail: false,
        },
        testfn: TestFn::DynTestFn(Box::new(move || {})),
    });

    let filtered = filter_tests(&opts, tests);

    assert_eq!(filtered.len(), 2);
    assert!(filtered
        .iter()
        .all(|test| test.desc.should_panic == ShouldPanic::No));
}

#[test]
pub fn exact_filter_match() {
    fn tests() -> Vec<TestDescAndFn> {
        vec!["base", "base::test", "base::test1", "base::test2"]
            .into_iter()
            .map(|name| TestDescAndFn {
                desc: TestDesc {
                    name: TestName::StaticTestName(name),
                    ignore: false,
                    should_panic: ShouldPanic::No,
                    allow_fail: false,
                },
                testfn: TestFn::DynTestFn(Box::new(move || {})),
            })
            .collect()
    }

    let substr = filter_tests(
        &TestOpts {
            filter: Some("base".into()),
            ..TestOpts::new()
        },
        tests(),
    );
    assert_eq!(substr.len(), 4);

    let substr = filter_tests(
        &TestOpts {
            filter: Some("bas".into()),
            ..TestOpts::new()
        },
        tests(),
    );
    assert_eq!(substr.len(), 4);

    let substr = filter_tests(
        &TestOpts {
            filter: Some("::test".into()),
            ..TestOpts::new()
        },
        tests(),
    );
    assert_eq!(substr.len(), 3);

    let substr = filter_tests(
        &TestOpts {
            filter: Some("base::test".into()),
            ..TestOpts::new()
        },
        tests(),
    );
    assert_eq!(substr.len(), 3);

    let exact = filter_tests(
        &TestOpts {
            filter: Some("base".into()),
            filter_exact: true,
            ..TestOpts::new()
        },
        tests(),
    );
    assert_eq!(exact.len(), 1);

    let exact = filter_tests(
        &TestOpts {
            filter: Some("bas".into()),
            filter_exact: true,
            ..TestOpts::new()
        },
        tests(),
    );
    assert_eq!(exact.len(), 0);

    let exact = filter_tests(
        &TestOpts {
            filter: Some("::test".into()),
            filter_exact: true,
            ..TestOpts::new()
        },
        tests(),
    );
    assert_eq!(exact.len(), 0);

    let exact = filter_tests(
        &TestOpts {
            filter: Some("base::test".into()),
            filter_exact: true,
            ..TestOpts::new()
        },
        tests(),
    );
    assert_eq!(exact.len(), 1);
}

#[test]
pub fn sort_tests() {
    let mut opts = TestOpts::new();
    opts.run_tests = true;

    let names = vec![
        "sha1::test".to_string(),
        "isize::test_to_str".to_string(),
        "isize::test_pow".to_string(),
        "test::do_not_run_ignored_tests".to_string(),
        "test::ignored_tests_result_in_ignored".to_string(),
        "test::first_free_arg_should_be_a_filter".to_string(),
        "test::parse_ignored_flag".to_string(),
        "test::parse_include_ignored_flag".to_string(),
        "test::filter_for_ignored_option".to_string(),
        "test::run_include_ignored_option".to_string(),
        "test::sort_tests".to_string(),
    ];
    let tests = {
        fn testfn() {}
        let mut tests = Vec::new();
        for name in &names {
            let test = TestDescAndFn {
                desc: TestDesc {
                    name: TestName::DynTestName((*name).clone()),
                    ignore: false,
                    should_panic: ShouldPanic::No,
                    allow_fail: false,
                },
                testfn: TestFn::DynTestFn(Box::new(testfn)),
            };
            tests.push(test);
        }
        tests
    };
    let filtered = filter_tests(&opts, tests);

    let expected = vec![
        "isize::test_pow".to_string(),
        "isize::test_to_str".to_string(),
        "sha1::test".to_string(),
        "test::do_not_run_ignored_tests".to_string(),
        "test::filter_for_ignored_option".to_string(),
        "test::first_free_arg_should_be_a_filter".to_string(),
        "test::ignored_tests_result_in_ignored".to_string(),
        "test::parse_ignored_flag".to_string(),
        "test::parse_include_ignored_flag".to_string(),
        "test::run_include_ignored_option".to_string(),
        "test::sort_tests".to_string(),
    ];

    for (a, b) in expected.iter().zip(filtered) {
        assert!(*a == b.desc.name.to_string());
    }
}

#[test]
fn exact_filter_keeps_the_entry_of_that_name() {
    let exact = filter_tests(
        &TestOpts {
            filter: Some("base".into()),
            filter_exact: true,
            ..TestOpts::new()
        },
        named(&["base", "base::test", "base::test1", "base::test2"]),
    );
    assert_eq!(names_of(&exact), vec!["base".to_string()]);
}

#[test]
fn skip_drops_every_match() {
    let opts = TestOpts {
        skip: vec!["test1".to_string(), "nothing".to_string()],
        ..TestOpts::new()
    };
    let kept = filter_tests(&opts, named(&["base", "base::test", "base::test1", "base::test2"]));
    assert_eq!(
        names_of(&kept),
        vec!["base".to_string(), "base::test".to_string(), "base::test2".to_string()]
    );

    let opts = TestOpts {
        skip: vec!["base".to_string()],
        filter_exact: true,
        ..TestOpts::new()
    };
    let kept = filter_tests(&opts, named(&["base", "base::test"]));
    assert_eq!(names_of(&kept), vec!["base::test".to_string()]);
}

#[test]
fn empty_filter_matches_every_name() {
    let opts = TestOpts {
        filter: Some(String::new()),
        ..TestOpts::new()
    };
    assert_eq!(filter_tests(&opts, named(&["b", "a", ""])).len(), 3);
}

#[test]
fn order_is_by_bytes_and_stable() {
    let tests = vec![
        ("b", true),
        ("a", false),
        ("B", false),
        ("a", true),
        ("\u{e9}", false),
        ("z", false),
        ("ab", false),
    ]
    .into_iter()
    .map(|(name, allow_fail)| TestDescAndFn {
        desc: TestDesc {
            name: TestName::StaticTestName(name),
            ignore: false,
            should_panic: ShouldPanic::No,
            allow_fail,
        },
        testfn: TestFn::DynTestFn(Box::new(move || {})),
    })
    .collect();
    let sorted = filter_tests(&TestOpts::new(), tests);
    let got: Vec<(String, bool)> = sorted
        .iter()
        .map(|t| (t.desc.name.to_string(), t.desc.allow_fail))
        .collect();
    let expected: Vec<(String, bool)> = vec![
        ("B", false),
        ("a", false),
        ("a", true),
        ("ab", false),
        ("b", true),
        ("z", false),
        ("\u{e9}", false),
    ]
    .into_iter()
    .map(|(n, a)| (n.to_string(), a))
    .collect();
    assert_eq!(got, expected);
    for pair in sorted.windows(2) {
        assert!(pair[0].desc.name.as_slice().as_bytes() <= pair[1].desc.name.as_slice().as_bytes());
    }
}

#[test]
fn filtering_twice_changes_nothing() {
    let opts = TestOpts {
        filter: Some("base".into()),
        skip: vec!["test2".to_string()],
        run_ignored: RunIgnored::Yes,
        ..TestOpts::new()
    };
    let once = filter_tests(&opts, named(&["base::test2", "other", "base::test", "base"]));
    let first = names_of(&once);
    let twice = filter_tests(&opts, once);
    assert_eq!(names_of(&twice), first);
    assert_eq!(first, vec!["base".to_string(), "base::test".to_string()]);
}

#[test]
fn only_ignored_twice_keeps_nothing() {
    let mut opts = TestOpts::new();
    opts.run_ignored = RunIgnored::Only;
    let once = filter_tests(&opts, one_ignored_one_unignored_test());
    assert_eq!(once.len(), 1);
    let twice = filter_tests(&opts, once);
    assert_eq!(twice.len(), 0);
}
