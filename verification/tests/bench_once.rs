use libtest::bench::run_once;
use libtest::Bencher;

#[test]
pub fn test_bench_once_no_iter() {
    fn f(_: &mut Bencher) {}
    run_once(f);
}

#[test]
pub fn test_bench_once_iter() {
    fn f(b: &mut Bencher) {
        b.iter(|| {})
    }
    run_once(f);
}
