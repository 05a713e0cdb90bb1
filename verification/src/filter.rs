//! Which entries run, and in what order.
//!
//! An entry is kept if its name matches the filter, no skip pattern matches
//! it, and the options on panicking and ignored tests let it through. What
//! is kept is put in the order of the names' bytes; entries with the same
//! name stay in the order in which they were given.
use vstd::prelude::*;

use crate::text::{
    bytes_contain, bytes_eq, bytes_le, bytes_le_exec, contains_bytes, lemma_bytes_le_total,
    lemma_bytes_le_trans, utf8,
};
use crate::types::{RunIgnored, ShouldPanic, TestDesc, TestDescAndFn, TestOpts};
use crate::vecs::reversed;

verus! {

/// A name matches a pattern if it holds it, or, when `exact` is set, if it equals it.
pub open spec fn matches_filter(name: Seq<u8>, pattern: Seq<u8>, exact: bool) -> bool {
    if exact {
        name == pattern
    } else {
        contains_bytes(name, pattern)
    }
}

/// Some skip pattern matches the name.
pub open spec fn is_skipped(name: Seq<u8>, skip: Seq<String>, exact: bool) -> bool {
    exists|i: int| 0 <= i < skip.len() && matches_filter(name, utf8(#[trigger] skip[i]@), exact)
}

/// The entry passes the filter, the skip patterns, and the options on
/// panicking and ignored tests.
pub open spec fn keeps(opts: &TestOpts, t: &TestDescAndFn) -> bool {
    &&& opts.filter matches Some(f) ==> matches_filter(
        t.desc.name.bytes(),
        utf8(f@),
        opts.filter_exact,
    )
    &&& !is_skipped(t.desc.name.bytes(), opts.skip@, opts.filter_exact)
    &&& opts.exclude_should_panic ==> t.desc.should_panic is No
    &&& opts.run_ignored is Only ==> t.desc.ignore
}

/// The entry as it leaves the filter: no longer ignored, unless ignored
/// tests are left alone.
pub open spec fn unignored(opts: &TestOpts, t: TestDescAndFn) -> TestDescAndFn {
    if opts.run_ignored is No {
        t
    } else {
        TestDescAndFn {
            desc: TestDesc {
                name: t.desc.name,
                ignore: false,
                should_panic: t.desc.should_panic,
                allow_fail: t.desc.allow_fail,
            },
            testfn: t.testfn,
        }
    }
}

/// The entries that are kept, in the order given, each as it leaves the filter.
pub open spec fn kept(opts: &TestOpts, tests: Seq<TestDescAndFn>) -> Seq<TestDescAndFn>
    decreases tests.len(),
{
    if tests.len() == 0 {
        Seq::empty()
    } else if keeps(opts, &tests.last()) {
        kept(opts, tests.drop_last()).push(unignored(opts, tests.last()))
    } else {
        kept(opts, tests.drop_last())
    }
}

/// `a` does not sort after `b`.
pub open spec fn name_le(a: &TestDescAndFn, b: &TestDescAndFn) -> bool {
    bytes_le(a.desc.name.bytes(), b.desc.name.bytes())
}

/// No entry sorts after a later one.
pub open spec fn sorted_by_name(s: Seq<TestDescAndFn>) -> bool {
    forall|i: int, j: int| 0 <= i < j < s.len() ==> name_le(&s[i], &s[j])
}

/// `x` put behind the last entry that does not sort after it.
pub open spec fn insert_by_name(s: Seq<TestDescAndFn>, x: TestDescAndFn) -> Seq<TestDescAndFn>
    decreases s.len(),
{
    if s.len() == 0 {
        seq![x]
    } else if name_le(&s.last(), &x) {
        s.push(x)
    } else {
        insert_by_name(s.drop_last(), x).push(s.last())
    }
}

/// The entries in the order of their names; entries with the same name keep their order.
pub open spec fn sort_by_name(s: Seq<TestDescAndFn>) -> Seq<TestDescAndFn>
    decreases s.len(),
{
    if s.len() == 0 {
        Seq::empty()
    } else {
        insert_by_name(sort_by_name(s.drop_last()), s.last())
    }
}

/// What the filter makes of a list of entries.
pub open spec fn filter_spec(opts: &TestOpts, tests: Seq<TestDescAndFn>) -> Seq<TestDescAndFn> {
    sort_by_name(kept(opts, tests))
}

/// Where `insert_by_name` puts `x`: at `p`, if everything from `p` on sorts
/// after `x` and the entry before `p` does not.
proof fn lemma_insert_at(s: Seq<TestDescAndFn>, x: TestDescAndFn, p: int)
    requires
        0 <= p <= s.len(),
        forall|j: int| p <= j < s.len() ==> !name_le(&s[j], &x),
        p > 0 ==> name_le(&s[p - 1], &x),
    ensures
        insert_by_name(s, x) == s.insert(p, x),
    decreases s.len(),
{
    if s.len() == 0 {
        assert(s.insert(p, x) =~= seq![x]);
    } else if p == s.len() {
        assert(s.insert(p, x) =~= s.push(x));
    } else {
        lemma_insert_at(s.drop_last(), x, p);
        assert(s.drop_last().insert(p, x).push(s.last()) =~= s.insert(p, x));
    }
}

proof fn lemma_insert_len(s: Seq<TestDescAndFn>, x: TestDescAndFn)
    ensures
        insert_by_name(s, x).len() == s.len() + 1,
    decreases s.len(),
{
    if s.len() > 0 && !name_le(&s.last(), &x) {
        lemma_insert_len(s.drop_last(), x);
    }
}

proof fn lemma_sort_len(s: Seq<TestDescAndFn>)
    ensures
        sort_by_name(s).len() == s.len(),
    decreases s.len(),
{
    if s.len() > 0 {
        lemma_sort_len(s.drop_last());
        lemma_insert_len(sort_by_name(s.drop_last()), s.last());
    }
}

proof fn lemma_kept_len(opts: &TestOpts, tests: Seq<TestDescAndFn>)
    ensures
        kept(opts, tests).len() <= tests.len(),
    decreases tests.len(),
{
    if tests.len() > 0 {
        lemma_kept_len(opts, tests.drop_last());
    }
}

/// Every entry of `insert_by_name(s, x)` is `x` or an entry of `s`.
proof fn lemma_insert_members(s: Seq<TestDescAndFn>, x: TestDescAndFn, i: int)
    requires
        0 <= i < insert_by_name(s, x).len(),
    ensures
        insert_by_name(s, x)[i] == x || s.contains(insert_by_name(s, x)[i]),
    decreases s.len(),
{
    if s.len() == 0 {
    } else if name_le(&s.last(), &x) {
        if i < s.len() {
            assert(s[i] == s.push(x)[i]);
        }
    } else {
        lemma_insert_len(s.drop_last(), x);
        if i < s.len() {
            lemma_insert_members(s.drop_last(), x, i);
            let e = insert_by_name(s.drop_last(), x)[i];
            if e != x {
                let k = choose|k: int| 0 <= k < s.drop_last().len() && s.drop_last()[k] == e;
                assert(s[k] == e);
            }
        } else {
            assert(s[s.len() - 1] == s.last());
        }
    }
}

proof fn lemma_insert_sorted(s: Seq<TestDescAndFn>, x: TestDescAndFn)
    requires
        sorted_by_name(s),
    ensures
        sorted_by_name(insert_by_name(s, x)),
    decreases s.len(),
{
    let r = insert_by_name(s, x);
    if s.len() == 0 {
    } else if name_le(&s.last(), &x) {
        assert forall|i: int, j: int| 0 <= i < j < r.len() implies name_le(&r[i], &r[j]) by {
            if j == s.len() {
                if i < s.len() - 1 {
                    assert(name_le(&s[i], &s[s.len() - 1]));
                    lemma_bytes_le_trans(
                        s[i].desc.name.bytes(),
                        s.last().desc.name.bytes(),
                        x.desc.name.bytes(),
                    );
                }
            } else {
                assert(name_le(&s[i], &s[j]));
            }
        }
    } else {
        let d = s.drop_last();
        assert forall|i: int, j: int| 0 <= i < j < d.len() implies name_le(&d[i], &d[j]) by {
            assert(name_le(&s[i], &s[j]));
        }
        lemma_insert_sorted(d, x);
        lemma_insert_len(d, x);
        let q = insert_by_name(d, x);
        lemma_bytes_le_total(s.last().desc.name.bytes(), x.desc.name.bytes());
        assert forall|i: int, j: int| 0 <= i < j < r.len() implies name_le(&r[i], &r[j]) by {
            if j == q.len() {
                lemma_insert_members(d, x, i);
                if q[i] != x {
                    let k = choose|k: int| 0 <= k < d.len() && d[k] == q[i];
                    assert(name_le(&s[k], &s[s.len() - 1]));
                }
            } else {
                assert(name_le(&q[i], &q[j]));
            }
        }
    }
}

/// What the filter hands back is in the order of the names' bytes: no entry
/// sorts after a later one.
pub proof fn lemma_sort_sorted(s: Seq<TestDescAndFn>)
    ensures
        sorted_by_name(sort_by_name(s)),
    decreases s.len(),
{
    if s.len() > 0 {
        lemma_sort_sorted(s.drop_last());
        lemma_insert_sorted(sort_by_name(s.drop_last()), s.last());
    }
}

/// A list that is in order already is left as it is.
pub proof fn lemma_sort_of_sorted(s: Seq<TestDescAndFn>)
    requires
        sorted_by_name(s),
    ensures
        sort_by_name(s) == s,
    decreases s.len(),
{
    if s.len() > 0 {
        let d = s.drop_last();
        assert forall|i: int, j: int| 0 <= i < j < d.len() implies name_le(&d[i], &d[j]) by {
            assert(name_le(&s[i], &s[j]));
        }
        lemma_sort_of_sorted(d);
        if d.len() > 0 {
            assert(name_le(&s[d.len() - 1], &s[s.len() - 1]));
        }
        assert(d.push(s.last()) =~= s);
    }
}

/// Sorting neither adds nor loses an entry.
pub proof fn lemma_sort_permutes(s: Seq<TestDescAndFn>)
    ensures
        sort_by_name(s).to_multiset() == s.to_multiset(),
    decreases s.len(),
{
    broadcast use vstd::seq_lib::group_to_multiset_ensures;

    if s.len() == 0 {
    } else {
        let d = s.drop_last();
        lemma_sort_permutes(d);
        lemma_insert_permutes(sort_by_name(d), s.last());
        assert(d.push(s.last()) =~= s);
    }
}

proof fn lemma_insert_permutes(s: Seq<TestDescAndFn>, x: TestDescAndFn)
    ensures
        insert_by_name(s, x).to_multiset() == s.to_multiset().insert(x),
    decreases s.len(),
{
    broadcast use vstd::seq_lib::group_to_multiset_ensures;

    if s.len() == 0 {
        assert(seq![x] =~= Seq::<TestDescAndFn>::empty().push(x));
    } else if name_le(&s.last(), &x) {
    } else {
        let d = s.drop_last();
        lemma_insert_permutes(d, x);
        assert(d.push(s.last()) =~= s);
        assert(insert_by_name(s, x).to_multiset() =~= s.to_multiset().insert(x));
    }
}

/// Every entry that the filter keeps passes it in the form in which it was kept,
/// unless only ignored tests run.
proof fn lemma_kept_stable(opts: &TestOpts, tests: Seq<TestDescAndFn>, i: int)
    requires
        !(opts.run_ignored is Only),
        0 <= i < kept(opts, tests).len(),
    ensures
        keeps(opts, &kept(opts, tests)[i]),
        unignored(opts, kept(opts, tests)[i]) == kept(opts, tests)[i],
    decreases tests.len(),
{
    if tests.len() == 0 {
    } else if keeps(opts, &tests.last()) {
        if i < kept(opts, tests.drop_last()).len() {
            lemma_kept_stable(opts, tests.drop_last(), i);
        }
    } else {
        lemma_kept_stable(opts, tests.drop_last(), i);
    }
}

/// A list whose entries all pass the filter as they are is kept whole.
proof fn lemma_kept_of_stable(opts: &TestOpts, s: Seq<TestDescAndFn>)
    requires
        forall|i: int| 0 <= i < s.len() ==> keeps(opts, &s[i]) && unignored(opts, s[i]) == s[i],
    ensures
        kept(opts, s) == s,
    decreases s.len(),
{
    if s.len() > 0 {
        let d = s.drop_last();
        assert forall|i: int| 0 <= i < d.len() implies keeps(opts, &d[i]) && unignored(
            opts,
            d[i],
        ) == d[i] by {
            assert(d[i] == s[i]);
        }
        lemma_kept_of_stable(opts, d);
        assert(s[s.len() - 1] == s.last());
        assert(d.push(s.last()) =~= s);
    }
}

/// Every entry of a sorted list is an entry of the list that was sorted.
proof fn lemma_sort_members(s: Seq<TestDescAndFn>, i: int)
    requires
        0 <= i < sort_by_name(s).len(),
    ensures
        s.contains(sort_by_name(s)[i]),
    decreases s.len(),
{
    if s.len() > 0 {
        let d = s.drop_last();
        lemma_insert_members(sort_by_name(d), s.last(), i);
        let e = sort_by_name(s)[i];
        if e == s.last() {
            assert(s[s.len() - 1] == e);
        } else {
            let k = choose|k: int| 0 <= k < sort_by_name(d).len() && sort_by_name(d)[k] == e;
            lemma_sort_members(d, k);
            let m = choose|m: int| 0 <= m < d.len() && d[m] == e;
            assert(s[m] == e);
        }
    }
}

/// Filtering is idempotent under unchanged options: to filter what the filter
/// handed back changes nothing. The one exception is a run of only the ignored
/// tests: the filter clears the mark by which it chose them, so a second pass
/// over a list that is not empty keeps none of them.
pub proof fn lemma_filter_idempotent(opts: &TestOpts, tests: Seq<TestDescAndFn>)
    requires
        !(opts.run_ignored is Only) || filter_spec(opts, tests).len() == 0,
    ensures
        filter_spec(opts, filter_spec(opts, tests)) == filter_spec(opts, tests),
{
    let k = kept(opts, tests);
    let f = filter_spec(opts, tests);
    if f.len() == 0 {
        assert(f =~= Seq::empty());
    } else {
        assert forall|i: int| 0 <= i < f.len() implies keeps(opts, &f[i]) && unignored(
            opts,
            f[i],
        ) == f[i] by {
            lemma_sort_members(k, i);
            let m = choose|m: int| 0 <= m < k.len() && k[m] == f[i];
            lemma_kept_stable(opts, tests, m);
        }
        lemma_kept_of_stable(opts, f);
        lemma_sort_sorted(k);
        lemma_sort_of_sorted(f);
    }
}

/// In a run of only the ignored tests, a second pass keeps nothing.
pub proof fn lemma_filter_only_ignored_twice(opts: &TestOpts, tests: Seq<TestDescAndFn>)
    requires
        opts.run_ignored is Only,
    ensures
        filter_spec(opts, filter_spec(opts, tests)).len() == 0,
{
    let k = kept(opts, tests);
    let f = filter_spec(opts, tests);
    assert forall|i: int| 0 <= i < f.len() implies !f[i].desc.ignore by {
        lemma_sort_members(k, i);
        let m = choose|m: int| 0 <= m < k.len() && k[m] == f[i];
        lemma_kept_cleared(opts, tests, m);
    }
    lemma_kept_none(opts, f);
    lemma_sort_len(kept(opts, f));
}

proof fn lemma_kept_cleared(opts: &TestOpts, tests: Seq<TestDescAndFn>, i: int)
    requires
        !(opts.run_ignored is No),
        0 <= i < kept(opts, tests).len(),
    ensures
        !kept(opts, tests)[i].desc.ignore,
    decreases tests.len(),
{
    if tests.len() == 0 {
    } else if keeps(opts, &tests.last()) {
        if i < kept(opts, tests.drop_last()).len() {
            lemma_kept_cleared(opts, tests.drop_last(), i);
        }
    } else {
        lemma_kept_cleared(opts, tests.drop_last(), i);
    }
}

proof fn lemma_kept_none(opts: &TestOpts, s: Seq<TestDescAndFn>)
    requires
        forall|i: int| 0 <= i < s.len() ==> !keeps(opts, &s[i]),
    ensures
        kept(opts, s).len() == 0,
    decreases s.len(),
{
    if s.len() > 0 {
        let d = s.drop_last();
        assert forall|i: int| 0 <= i < d.len() implies !keeps(opts, &d[i]) by {
            assert(d[i] == s[i]);
        }
        lemma_kept_none(opts, d);
        assert(s[s.len() - 1] == s.last());
    }
}

/// Whether the name matches the pattern.
pub fn name_matches(name: &str, pattern: &str, exact: bool) -> (r: bool)
    ensures
        r == matches_filter(utf8(name@), utf8(pattern@), exact),
{
    if exact {
        bytes_eq(name.as_bytes(), pattern.as_bytes())
    } else {
        bytes_contain(name.as_bytes(), pattern.as_bytes())
    }
}

/// Whether the filter keeps the entry.
pub fn passes_filter(opts: &TestOpts, t: &TestDescAndFn) -> (r: bool)
    ensures
        r == keeps(opts, t),
{
    let name = t.desc.name.as_slice();
    if let Some(filter) = &opts.filter {
        if !name_matches(name, filter.as_str(), opts.filter_exact) {
            return false;
        }
    }
    let mut i: usize = 0;
    while i < opts.skip.len()
        invariant
            i <= opts.skip.len(),
            name@ == t.desc.name.text(),
            forall|k: int|
                0 <= k < i ==> !matches_filter(
                    t.desc.name.bytes(),
                    utf8(#[trigger] opts.skip@[k]@),
                    opts.filter_exact,
                ),
        decreases opts.skip.len() - i,
    {
        if name_matches(name, opts.skip[i].as_str(), opts.filter_exact) {
            return false;
        }
        i += 1;
    }
    if opts.exclude_should_panic {
        match t.desc.should_panic {
            ShouldPanic::No => {},
            _ => {
                return false;
            },
        }
    }
    match opts.run_ignored {
        RunIgnored::Only => t.desc.ignore,
        _ => true,
    }
}

/// Filters the entries by the options and puts them in the order of their names.
pub fn filter_tests(opts: &TestOpts, tests: Vec<TestDescAndFn>) -> (filtered: Vec<TestDescAndFn>)
    ensures
        filtered@ == filter_spec(opts, tests@),
        sorted_by_name(filtered@),
        filtered@.to_multiset() == kept(opts, tests@).to_multiset(),
        filtered@.len() <= tests@.len(),
{
    let ghost all = tests@;
    let mut pending = reversed(tests);
    let mut out: Vec<TestDescAndFn> = Vec::new();
    let ghost mut done: int = 0;
    while pending.len() > 0
        invariant
            0 <= done <= all.len(),
            pending@.len() == all.len() - done,
            forall|i: int| 0 <= i < pending@.len() ==> pending@[i] == all[all.len() - 1 - i],
            out@ == filter_spec(opts, all.take(done)),
        decreases pending.len(),
    {
        let x = pending.pop().unwrap();
        proof {
            assert(x == all[done]);
            assert(all.take(done + 1).drop_last() =~= all.take(done));
            assert(all.take(done + 1).last() == x);
        }
        if passes_filter(opts, &x) {
            let mut x = x;
            match opts.run_ignored {
                RunIgnored::No => {},
                _ => {
                    x.desc.ignore = false;
                },
            }
            assert(x == unignored(opts, all[done]));
            let ghost before = out@;
            let mut p: usize = out.len();
            while p > 0 && !bytes_le_exec(
                out[p - 1].desc.name.as_slice().as_bytes(),
                x.desc.name.as_slice().as_bytes(),
            )
                invariant
                    p <= out.len(),
                    out@ == before,
                    forall|j: int| p <= j < out@.len() ==> !name_le(&out@[j], &x),
                decreases p,
            {
                p -= 1;
            }
            proof {
                lemma_insert_at(before, x, p as int);
                assert(kept(opts, all.take(done + 1)) == kept(opts, all.take(done)).push(x));
                assert(kept(opts, all.take(done)).push(x).drop_last() =~= kept(
                    opts,
                    all.take(done),
                ));
            }
            out.insert(p, x);
        }
        proof {
            done = done + 1;
        }
    }
    proof {
        assert(all.take(done) =~= all);
        lemma_sort_sorted(kept(opts, all));
        lemma_sort_permutes(kept(opts, all));
        lemma_sort_len(kept(opts, all));
        lemma_kept_len(opts, all);
    }
    out
}

} // verus!
