use libtest::timeout_table::{deadline_for, TimeoutTable};
use libtest::{ShouldPanic, TestDesc, TestName};

fn desc(name: &'static str) -> TestDesc {
    TestDesc {
        name: TestName::StaticTestName(name),
        ignore: false,
        should_panic: ShouldPanic::No,
        allow_fail: false,
    }
}

fn names(descs: &[TestDesc]) -> Vec<String> {
    descs.iter().map(|d| d.name.to_string()).collect()
}

#[test]
fn deadlines_are_a_minute_away() {
    assert_eq!(deadline_for(0), 60_000_000_000);
    assert_eq!(deadline_for(5), 60_000_000_005);
    assert_eq!(deadline_for(u64::MAX - 60_000_000_000), u64::MAX);
    assert_eq!(deadline_for(u64::MAX - 59_999_999_999), u64::MAX);
    assert_eq!(deadline_for(u64::MAX), u64::MAX);
}

#[test]
fn the_earliest_deadline_decides_the_wait() {
    let mut table = TimeoutTable::new();
    assert_eq!(table.len(), 0);
    assert_eq!(table.next_timeout(7), None);
    table.insert(desc("a"), 100);
    table.insert(desc("b"), 50);
    table.insert(desc("c"), 70);
    assert_eq!(table.len(), 3);
    assert_eq!(table.next_timeout(0), Some(50));
    assert_eq!(table.next_timeout(49), Some(1));
    assert_eq!(table.next_timeout(50), Some(0));
    assert_eq!(table.next_timeout(60), Some(0));
    table.remove(&desc("b"));
    assert_eq!(table.next_timeout(60), Some(10));
}

#[test]
fn a_test_has_one_deadline() {
    let mut table = TimeoutTable::new();
    table.insert(desc("a"), 100);
    table.insert(desc("b"), 50);
    table.insert(desc("a"), 30);
    assert_eq!(table.len(), 2);
    assert_eq!(table.next_timeout(0), Some(30));
    // The same name under another descriptor is another test.
    table.insert(TestDesc { ignore: true, ..desc("a") }, 10);
    table.insert(TestDesc { name: TestName::DynTestName("a".to_string()), ..desc("a") }, 20);
    assert_eq!(table.len(), 4);
    table.remove(&desc("a"));
    assert_eq!(table.len(), 3);
    table.remove(&desc("a"));
    table.remove(&desc("never there"));
    assert_eq!(table.len(), 3);
    assert_eq!(table.next_timeout(0), Some(10));
}

#[test]
fn harvest_takes_what_is_due() {
    let mut table = TimeoutTable::new();
    table.insert(desc("a"), 100);
    table.insert(desc("b"), 50);
    table.insert(desc("c"), 70);
    table.insert(desc("d"), 50);
    assert!(table.harvest(49).is_empty());
    assert_eq!(table.len(), 4);
    assert_eq!(names(&table.harvest(70)), vec!["b", "c", "d"]);
    assert_eq!(table.len(), 1);
    assert!(table.harvest(99).is_empty());
    assert_eq!(names(&table.harvest(100)), vec!["a"]);
    assert_eq!(table.len(), 0);
    assert_eq!(table.next_timeout(0), None);
}
