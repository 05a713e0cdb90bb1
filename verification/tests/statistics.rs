use libtest::bench::{initial_iterations, sampler_step, SamplerStep};
use libtest::stats::{median_of, percentile_of_sorted, sorted_copy, winsorize, Summary};

fn summary(median: u64, median_abs_dev: u64, median_abs_dev_pct: u64) -> Summary {
    Summary {
        sum: 0,
        min: 0,
        max: 0,
        median,
        median_abs_dev,
        median_abs_dev_pct,
    }
}

#[test]
fn sorting() {
    assert_eq!(sorted_copy(&vec![3, 1, 2, 1, 0]), vec![0, 1, 1, 2, 3]);
    assert_eq!(sorted_copy(&vec![]), Vec::<u64>::new());
    assert_eq!(sorted_copy(&vec![u64::MAX, 0]), vec![0, u64::MAX]);
}

#[test]
fn percentiles() {
    let sorted: Vec<u64> = vec![10, 20, 30, 40, 50];
    assert_eq!(percentile_of_sorted(&sorted, 0), 10);
    assert_eq!(percentile_of_sorted(&sorted, 50), 30);
    assert_eq!(percentile_of_sorted(&sorted, 100), 50);
    assert_eq!(percentile_of_sorted(&sorted, 25), 20);
    // Between two samples: 10 percent of the way over four steps is 0.4 of the first.
    assert_eq!(percentile_of_sorted(&sorted, 10), 14);
    assert_eq!(percentile_of_sorted(&sorted, 99), 49);
    assert_eq!(percentile_of_sorted(&vec![7], 33), 7);
    assert_eq!(percentile_of_sorted(&vec![0, u64::MAX], 50), u64::MAX / 2);
    assert_eq!(percentile_of_sorted(&vec![1, 2], 50), 1);
}

#[test]
fn medians() {
    assert_eq!(median_of(&vec![5, 1, 3]), 3);
    assert_eq!(median_of(&vec![4, 1, 3, 2]), 2);
    assert_eq!(median_of(&vec![9]), 9);
}

#[test]
fn winsorizing() {
    let mut samples: Vec<u64> = (1..=21).rev().collect();
    winsorize(&mut samples, 5);
    let expected: Vec<u64> = (1..=21).rev().map(|x: u64| x.clamp(2, 20)).collect();
    assert_eq!(samples, expected);

    let mut samples: Vec<u64> = vec![100, 0, 50];
    winsorize(&mut samples, 0);
    assert_eq!(samples, vec![100, 0, 50]);

    let mut samples: Vec<u64> = vec![100, 0, 50];
    winsorize(&mut samples, 50);
    assert_eq!(samples, vec![50, 50, 50]);
}

#[test]
fn summaries() {
    let s = Summary::new(&vec![10, 20, 30, 40, 100]);
    assert_eq!(s.sum, 200);
    assert_eq!(s.min, 10);
    assert_eq!(s.max, 100);
    assert_eq!(s.median, 30);
    // The distances from the median are 20, 10, 0, 10, 70: their median is 10.
    assert_eq!(s.median_abs_dev, 10);
    assert_eq!(s.median_abs_dev_pct, 33);

    let s = Summary::new(&vec![0]);
    assert!(s == Summary::new_zero());
    assert_eq!(s.median_abs_dev_pct, 0);

    let s = Summary::new(&vec![u64::MAX, u64::MAX]);
    assert_eq!(s.sum, 2 * (u64::MAX as u128));
}

#[test]
fn first_sample_size() {
    assert_eq!(initial_iterations(0), 1_000_000);
    assert_eq!(initial_iterations(1), 1_000_000);
    assert_eq!(initial_iterations(3), 333_333);
    assert_eq!(initial_iterations(1_000_000), 1);
    assert_eq!(initial_iterations(1_000_001), 1);
    assert_eq!(initial_iterations(u64::MAX), 1);
}

#[test]
fn sampling_goes_on_or_stops() {
    let unstable = summary(100, 5, 5);
    let stable = summary(100, 0, 0);
    let long5 = summary(99, 3, 3);
    // Nothing has converged and the budget is not spent: twice the iterations.
    assert!(
        sampler_step(10, 0, 200_000_000, &unstable, &long5)
            == SamplerStep::Again { n: 20, total_run: 200_000_000 }
    );
    // Converged: long enough, stable, and the medians are close.
    assert!(sampler_step(10, 0, 100_000_001, &stable, &long5) == SamplerStep::Done);
    // Not long enough.
    assert!(
        sampler_step(10, 0, 100_000_000, &stable, &long5)
            == SamplerStep::Again { n: 20, total_run: 100_000_000 }
    );
    // The medians are too far apart: 100 - 99 is not below a deviation of 1.
    assert!(
        sampler_step(10, 0, 200_000_000, &stable, &summary(99, 1, 1))
            == SamplerStep::Again { n: 20, total_run: 200_000_000 }
    );
    // A median of the long runs above that of the short runs is close enough.
    assert!(sampler_step(10, 0, 200_000_000, &stable, &summary(500, 0, 0)) == SamplerStep::Done);
    // The budget: three seconds in all.
    assert!(
        sampler_step(10, 2_900_000_000, 100_000_000, &unstable, &long5)
            == SamplerStep::Again { n: 20, total_run: 3_000_000_000 }
    );
    assert!(sampler_step(10, 2_900_000_000, 100_000_001, &unstable, &long5) == SamplerStep::Done);
    assert!(sampler_step(10, u64::MAX, u64::MAX, &unstable, &long5) == SamplerStep::Done);
    // The iterations cannot grow tenfold.
    assert!(sampler_step(u64::MAX / 10 + 1, 0, 5, &unstable, &long5) == SamplerStep::Done);
    assert!(
        sampler_step(u64::MAX / 10, 0, 5, &unstable, &long5)
            == SamplerStep::Again { n: u64::MAX / 10 * 2, total_run: 5 }
    );
}
