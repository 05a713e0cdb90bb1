//! Summaries of sample sets.
//!
//! A sample is a whole number of nanoseconds. Percentiles are taken over the
//! samples in ascending order, with linear interpolation between neighbours,
//! rounded down.
use vstd::prelude::*;

verus! {

/// No sample is greater than a later one.
pub open spec fn is_sorted(s: Seq<u64>) -> bool {
    forall|i: int, j: int| 0 <= i < j < s.len() ==> s[i] <= s[j]
}

/// `x` put behind the last sample that is not greater.
pub open spec fn insert_sample(s: Seq<u64>, x: u64) -> Seq<u64>
    decreases s.len(),
{
    if s.len() == 0 {
        seq![x]
    } else if s.last() <= x {
        s.push(x)
    } else {
        insert_sample(s.drop_last(), x).push(s.last())
    }
}

/// The samples in ascending order.
pub open spec fn sort_samples(s: Seq<u64>) -> Seq<u64>
    decreases s.len(),
{
    if s.len() == 0 {
        Seq::empty()
    } else {
        insert_sample(sort_samples(s.drop_last()), s.last())
    }
}

/// The value below which `pct` percent of the sorted samples lie.
pub open spec fn percentile(sorted: Seq<u64>, pct: u64) -> u64
    recommends
        sorted.len() > 0,
        pct <= 100,
{
    if sorted.len() == 1 {
        sorted[0]
    } else if pct >= 100 {
        sorted.last()
    } else {
        let rank = pct * (sorted.len() - 1);
        let n = rank / 100;
        let d = rank % 100;
        (sorted[n] + ((sorted[n + 1] - sorted[n]) * d) / 100) as u64
    }
}

/// The median of the samples.
pub open spec fn median(s: Seq<u64>) -> u64 {
    percentile(sort_samples(s), 50)
}

/// How far two samples are apart.
pub open spec fn distance(a: u64, b: u64) -> u64 {
    if a <= b {
        (b - a) as u64
    } else {
        (a - b) as u64
    }
}

/// How far each sample is from `center`.
pub open spec fn deviations(s: Seq<u64>, center: u64) -> Seq<u64> {
    Seq::new(s.len(), |i: int| distance(s[i], center))
}

/// The sum of the samples.
pub open spec fn total(s: Seq<u64>) -> int
    decreases s.len(),
{
    if s.len() == 0 {
        0
    } else {
        total(s.drop_last()) + s.last()
    }
}

/// The least of the samples, `bound` if there is none below it.
pub open spec fn least(s: Seq<u64>, bound: u64) -> u64
    decreases s.len(),
{
    if s.len() == 0 {
        bound
    } else if s.last() < least(s.drop_last(), bound) {
        s.last()
    } else {
        least(s.drop_last(), bound)
    }
}

/// The greatest of the samples, `bound` if there is none above it.
pub open spec fn greatest(s: Seq<u64>, bound: u64) -> u64
    decreases s.len(),
{
    if s.len() == 0 {
        bound
    } else if s.last() > greatest(s.drop_last(), bound) {
        s.last()
    } else {
        greatest(s.drop_last(), bound)
    }
}

/// `part` as a percentage of `whole`, rounded down; 0 of nothing, and no more
/// than a `u64` holds.
pub open spec fn percent_of(part: u64, whole: u64) -> u64 {
    if whole == 0 {
        0
    } else if (part * 100) / (whole as int) > u64::MAX {
        u64::MAX
    } else {
        ((part * 100) / (whole as int)) as u64
    }
}

/// `x` held between `lo` and `hi`: what is above `hi` becomes `hi`, what is
/// below `lo` becomes `lo`.
pub open spec fn clamp(x: u64, lo: u64, hi: u64) -> u64 {
    if x > hi {
        hi
    } else if x < lo {
        lo
    } else {
        x
    }
}

/// The samples, each held between the percentiles `pct` and `100 - pct` of
/// them all.
pub open spec fn winsorized(s: Seq<u64>, pct: u64) -> Seq<u64> {
    let sorted = sort_samples(s);
    let lo = percentile(sorted, pct);
    let hi = percentile(sorted, (100 - pct) as u64);
    Seq::new(s.len(), |i: int| clamp(s[i], lo, hi))
}

/// What a set of samples comes to.
#[derive(Copy, Clone, Debug, PartialEq)]
pub struct Summary {
    pub sum: u128,
    pub min: u64,
    pub max: u64,
    pub median: u64,
    pub median_abs_dev: u64,
    pub median_abs_dev_pct: u64,
}

/// The summary of a set of samples that is not empty.
pub open spec fn summary_of(s: Seq<u64>) -> Summary {
    let med = median(s);
    let mad = median(deviations(s, med));
    Summary {
        sum: total(s) as u128,
        min: least(s, u64::MAX),
        max: greatest(s, 0),
        median: med,
        median_abs_dev: mad,
        median_abs_dev_pct: percent_of(mad, med),
    }
}

proof fn lemma_insert_sample_at(s: Seq<u64>, x: u64, p: int)
    requires
        0 <= p <= s.len(),
        forall|j: int| p <= j < s.len() ==> s[j] > x,
        p > 0 ==> s[p - 1] <= x,
    ensures
        insert_sample(s, x) == s.insert(p, x),
    decreases s.len(),
{
    if s.len() == 0 {
        assert(s.insert(p, x) =~= seq![x]);
    } else if p == s.len() {
        assert(s.insert(p, x) =~= s.push(x));
    } else {
        lemma_insert_sample_at(s.drop_last(), x, p);
        assert(s.drop_last().insert(p, x).push(s.last()) =~= s.insert(p, x));
    }
}

proof fn lemma_insert_sample_sorted(s: Seq<u64>, x: u64)
    requires
        is_sorted(s),
    ensures
        is_sorted(insert_sample(s, x)),
        insert_sample(s, x).len() == s.len() + 1,
        insert_sample(s, x).to_multiset() == s.to_multiset().insert(x),
    decreases s.len(),
{
    broadcast use vstd::seq_lib::group_to_multiset_ensures;

    if s.len() == 0 {
        assert(seq![x] =~= Seq::<u64>::empty().push(x));
    } else if s.last() <= x {
        assert forall|i: int, j: int| 0 <= i < j < s.push(x).len() implies s.push(x)[i] <= s.push(
            x,
        )[j] by {
            if j == s.len() && i < s.len() - 1 {
                assert(s[i] <= s[s.len() - 1]);
            }
        }
    } else {
        let d = s.drop_last();
        let q = insert_sample(d, x);
        assert forall|i: int, j: int| 0 <= i < j < d.len() implies d[i] <= d[j] by {
            assert(s[i] <= s[j]);
        }
        lemma_insert_sample_sorted(d, x);
        assert(d.push(s.last()) =~= s);
        assert(q.push(s.last()).to_multiset() =~= s.to_multiset().insert(x));
        assert forall|i: int| 0 <= i < q.len() implies q[i] <= s.last() by {
            assert(q.to_multiset().count(q[i]) > 0);
            if q[i] != x {
                assert(d.to_multiset().count(q[i]) > 0);
                let k = choose|k: int| 0 <= k < d.len() && d[k] == q[i];
                assert(s[k] <= s[s.len() - 1]);
            }
        }
        let r = q.push(s.last());
        assert forall|i: int, j: int| 0 <= i < j < r.len() implies r[i] <= r[j] by {
            if j < q.len() {
                assert(q[i] <= q[j]);
            }
        }
    }
}

/// The samples in ascending order are in order, as many as there were, and
/// the same samples.
pub proof fn lemma_sort_samples(s: Seq<u64>)
    ensures
        is_sorted(sort_samples(s)),
        sort_samples(s).len() == s.len(),
        sort_samples(s).to_multiset() == s.to_multiset(),
    decreases s.len(),
{
    broadcast use vstd::seq_lib::group_to_multiset_ensures;

    if s.len() > 0 {
        let d = s.drop_last();
        lemma_sort_samples(d);
        lemma_insert_sample_sorted(sort_samples(d), s.last());
        assert(d.push(s.last()) =~= s);
    }
}

/// A copy of the samples in ascending order.
pub fn sorted_copy(samples: &Vec<u64>) -> (out: Vec<u64>)
    ensures
        out@ == sort_samples(samples@),
        is_sorted(out@),
        out@.len() == samples@.len(),
{
    let mut out: Vec<u64> = Vec::new();
    let mut k: usize = 0;
    while k < samples.len()
        invariant
            k <= samples.len(),
            out@ == sort_samples(samples@.take(k as int)),
        decreases samples.len() - k,
    {
        let x = samples[k];
        let ghost before = out@;
        let mut p: usize = out.len();
        while p > 0 && out[p - 1] > x
            invariant
                p <= out.len(),
                out@ == before,
                forall|j: int| p <= j < out@.len() ==> out@[j] > x,
            decreases p,
        {
            p -= 1;
        }
        proof {
            lemma_insert_sample_at(before, x, p as int);
            assert(samples@.take(k + 1).drop_last() =~= samples@.take(k as int));
            assert(samples@.take(k + 1).last() == x);
        }
        out.insert(p, x);
        k += 1;
    }
    proof {
        assert(samples@.take(k as int) =~= samples@);
        lemma_sort_samples(samples@);
    }
    out
}

/// The value below which `pct` percent of the sorted samples lie.
pub fn percentile_of_sorted(sorted: &Vec<u64>, pct: u64) -> (r: u64)
    requires
        sorted@.len() > 0,
        pct <= 100,
        is_sorted(sorted@),
    ensures
        r == percentile(sorted@, pct),
{
    let len = sorted.len();
    if len == 1 {
        return sorted[0];
    }
    if pct == 100 {
        return sorted[len - 1];
    }
    let length: u128 = (len - 1) as u128;
    assert(pct * length <= 99 * length) by (nonlinear_arith)
        requires
            pct <= 99,
            length >= 0,
    ;
    let rank: u128 = pct as u128 * length;
    let n: usize = (rank / 100) as usize;
    let d: u128 = rank % 100;
    let lo = sorted[n];
    let hi = sorted[n + 1];
    let span: u128 = (hi - lo) as u128;
    assert(span * d <= span * 99) by (nonlinear_arith)
        requires
            d <= 99,
            span >= 0,
    ;
    let step: u128 = (span * d) / 100;
    lo + step as u64
}

/// Holds each sample between the percentiles `pct` and `100 - pct` of them all.
pub fn winsorize(samples: &mut Vec<u64>, pct: u64)
    requires
        old(samples)@.len() > 0,
        pct <= 100,
    ensures
        final(samples)@ == winsorized(old(samples)@, pct),
{
    let sorted = sorted_copy(samples);
    let lo = percentile_of_sorted(&sorted, pct);
    let hi = percentile_of_sorted(&sorted, 100 - pct);
    let ghost before = samples@;
    let mut i: usize = 0;
    while i < samples.len()
        invariant
            i <= samples.len(),
            samples@.len() == before.len(),
            forall|k: int| 0 <= k < i ==> samples@[k] == clamp(before[k], lo, hi),
            forall|k: int| i <= k < samples@.len() ==> samples@[k] == before[k],
        decreases samples.len() - i,
    {
        let x = samples[i];
        if x > hi {
            samples.set(i, hi);
        } else if x < lo {
            samples.set(i, lo);
        }
        i += 1;
    }
    assert(samples@ =~= winsorized(before, pct));
}

/// The median of the samples.
pub fn median_of(samples: &Vec<u64>) -> (r: u64)
    requires
        samples@.len() > 0,
    ensures
        r == median(samples@),
{
    let sorted = sorted_copy(samples);
    percentile_of_sorted(&sorted, 50)
}

proof fn lemma_total_bound(s: Seq<u64>)
    ensures
        0 <= total(s) <= s.len() * u64::MAX,
    decreases s.len(),
{
    if s.len() > 0 {
        lemma_total_bound(s.drop_last());
        assert((s.len() - 1) * u64::MAX + u64::MAX == s.len() * u64::MAX) by (nonlinear_arith);
    }
}

impl Summary {
    /// The summary of no measurement: that of the one sample 0.
    pub open spec fn zero() -> Summary {
        Summary { sum: 0, min: 0, max: 0, median: 0, median_abs_dev: 0, median_abs_dev_pct: 0 }
    }

    /// The summary of no measurement.
    pub fn new_zero() -> (r: Summary)
        ensures
            r == Summary::zero(),
    {
        Summary { sum: 0, min: 0, max: 0, median: 0, median_abs_dev: 0, median_abs_dev_pct: 0 }
    }

    /// Summarises a set of samples.
    pub fn new(samples: &Vec<u64>) -> (r: Summary)
        requires
            samples@.len() > 0,
        ensures
            r == summary_of(samples@),
    {
        let mut sum: u128 = 0;
        let mut min: u64 = u64::MAX;
        let mut max: u64 = 0;
        let mut i: usize = 0;
        while i < samples.len()
            invariant
                i <= samples.len(),
                sum == total(samples@.take(i as int)),
                min == least(samples@.take(i as int), u64::MAX),
                max == greatest(samples@.take(i as int), 0),
            decreases samples.len() - i,
        {
            let x = samples[i];
            proof {
                assert(samples@.take(i + 1).drop_last() =~= samples@.take(i as int));
                assert(samples@.take(i + 1).last() == x);
                lemma_total_bound(samples@.take(i + 1));
                assert(samples@.take(i + 1).len() * u64::MAX <= usize::MAX * u64::MAX)
                    by (nonlinear_arith)
                    requires
                        samples@.take(i + 1).len() <= usize::MAX,
                ;
                assert(usize::MAX * u64::MAX <= u128::MAX) by (nonlinear_arith)
                    requires
                        usize::MAX <= u64::MAX,
                        u64::MAX == 0xffff_ffff_ffff_ffff,
                        u128::MAX == 0xffff_ffff_ffff_ffff_ffff_ffff_ffff_ffff,
                ;
            }
            sum = sum + x as u128;
            if x < min {
                min = x;
            }
            if x > max {
                max = x;
            }
            i += 1;
        }
        assert(samples@.take(i as int) =~= samples@);
        let med = median_of(samples);
        let mut devs: Vec<u64> = Vec::new();
        let mut k: usize = 0;
        while k < samples.len()
            invariant
                k <= samples.len(),
                devs@.len() == k,
                forall|j: int| 0 <= j < k ==> devs@[j] == distance(samples@[j], med),
            decreases samples.len() - k,
        {
            let x = samples[k];
            let dev = if x <= med {
                med - x
            } else {
                x - med
            };
            devs.push(dev);
            k += 1;
        }
        assert(devs@ =~= deviations(samples@, med));
        let mad = median_of(&devs);
        let pct: u64 = if med == 0 {
            0
        } else {
            let p: u128 = (mad as u128 * 100) / (med as u128);
            if p > u64::MAX as u128 {
                u64::MAX
            } else {
                p as u64
            }
        };
        Summary {
            sum,
            min,
            max,
            median: med,
            median_abs_dev: mad,
            median_abs_dev_pct: pct,
        }
    }
}

} // verus!
