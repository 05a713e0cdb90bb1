//! The table of the running tests that have a deadline.
//!
//! A test gets its deadline when it starts, and loses it when its result
//! arrives or when it is reported as slow, whichever comes first.
use vstd::prelude::*;

use crate::vecs::reversed;
use crate::types::TestDesc;

verus! {

/// The nanoseconds after which a running test is reported as slow.
pub const TEST_WARN_TIMEOUT_NS: u64 = 60_000_000_000;

/// The table without the entries for `d`.
pub open spec fn without(table: Seq<(TestDesc, u64)>, d: TestDesc) -> Seq<(TestDesc, u64)>
    decreases table.len(),
{
    if table.len() == 0 {
        Seq::empty()
    } else if table.last().0.same(&d) {
        without(table.drop_last(), d)
    } else {
        without(table.drop_last(), d).push(table.last())
    }
}

/// The entries of the table whose deadline has not passed at `now`.
pub open spec fn alive(table: Seq<(TestDesc, u64)>, now: u64) -> Seq<(TestDesc, u64)>
    decreases table.len(),
{
    if table.len() == 0 {
        Seq::empty()
    } else if table.last().1 <= now {
        alive(table.drop_last(), now)
    } else {
        alive(table.drop_last(), now).push(table.last())
    }
}

/// The tests of the table whose deadline has passed at `now`, in the table's order.
pub open spec fn expired(table: Seq<(TestDesc, u64)>, now: u64) -> Seq<TestDesc>
    decreases table.len(),
{
    if table.len() == 0 {
        Seq::empty()
    } else if table.last().1 <= now {
        expired(table.drop_last(), now).push(table.last().0)
    } else {
        expired(table.drop_last(), now)
    }
}

/// The earliest deadline of the table, `bound` if none is earlier.
pub open spec fn earliest(table: Seq<(TestDesc, u64)>, bound: u64) -> u64
    decreases table.len(),
{
    if table.len() == 0 {
        bound
    } else if table.last().1 < earliest(table.drop_last(), bound) {
        table.last().1
    } else {
        earliest(table.drop_last(), bound)
    }
}

/// How long to wait for a result at `now`: until the earliest deadline, not
/// at all if that has passed, without end if no test has a deadline.
pub open spec fn next_timeout(table: Seq<(TestDesc, u64)>, now: u64) -> Option<u64> {
    if table.len() == 0 {
        None
    } else if earliest(table, u64::MAX) >= now {
        Some((earliest(table, u64::MAX) - now) as u64)
    } else {
        Some(0)
    }
}

/// The deadline of a test that starts at `now`: a minute later, or at the
/// end of time if that is earlier.
pub open spec fn deadline_at(now: u64) -> u64 {
    if now + TEST_WARN_TIMEOUT_NS > u64::MAX {
        u64::MAX
    } else {
        (now + TEST_WARN_TIMEOUT_NS) as u64
    }
}

/// No two entries of the table are for the same test.
pub open spec fn distinct_keys(table: Seq<(TestDesc, u64)>) -> bool {
    forall|i: int, j: int| 0 <= i < j < table.len() ==> !table[i].0.same(&table[j].0)
}

/// The deadline that the test has in the table, if it has one.
pub open spec fn deadline_of(table: Seq<(TestDesc, u64)>, d: TestDesc) -> Option<u64>
    decreases table.len(),
{
    if table.len() == 0 {
        None
    } else if table.last().0.same(&d) {
        Some(table.last().1)
    } else {
        deadline_of(table.drop_last(), d)
    }
}

/// A test that is taken out of the table has no deadline there, and every
/// other test has the deadline that it had.
pub proof fn lemma_without_deadlines(table: Seq<(TestDesc, u64)>, d: TestDesc, other: TestDesc)
    ensures
        deadline_of(without(table, d), d) is None,
        !other.same(&d) ==> deadline_of(without(table, d), other) == deadline_of(table, other),
    decreases table.len(),
{
    if table.len() > 0 {
        lemma_without_deadlines(table.drop_last(), d, other);
        if !table.last().0.same(&d) {
            assert(without(table, d).drop_last() =~= without(table.drop_last(), d));
        }
    }
}

/// A test that is put into the table has the deadline that it was given,
/// and every other test has the deadline that it had.
pub proof fn lemma_insert_deadlines(
    table: Seq<(TestDesc, u64)>,
    d: TestDesc,
    deadline: u64,
    other: TestDesc,
)
    ensures
        deadline_of(without(table, d).push((d, deadline)), d) == Some(deadline),
        !other.same(&d) ==> deadline_of(without(table, d).push((d, deadline)), other)
            == deadline_of(table, other),
{
    let t = without(table, d).push((d, deadline));
    assert(t.drop_last() =~= without(table, d));
    lemma_without_deadlines(table, d, other);
}

/// What is left of a table without the entries for `d` are entries of the
/// table for other tests.
pub proof fn lemma_without_members(table: Seq<(TestDesc, u64)>, d: TestDesc, i: int)
    requires
        0 <= i < without(table, d).len(),
    ensures
        table.contains(without(table, d)[i]),
        !without(table, d)[i].0.same(&d),
    decreases table.len(),
{
    if table.len() > 0 {
        let rest = without(table.drop_last(), d);
        if i < rest.len() {
            lemma_without_members(table.drop_last(), d, i);
            let k = choose|k: int| 0 <= k < table.drop_last().len() && table.drop_last()[k] == rest[i];
            assert(table[k] == rest[i]);
        } else {
            assert(table[table.len() - 1] == table.last());
        }
    }
}

/// A table in which no test stands twice stays so without a test.
pub proof fn lemma_without_distinct(table: Seq<(TestDesc, u64)>, d: TestDesc)
    requires
        distinct_keys(table),
    ensures
        distinct_keys(without(table, d)),
    decreases table.len(),
{
    if table.len() > 0 {
        let dl = table.drop_last();
        assert forall|i: int, j: int| 0 <= i < j < dl.len() implies !dl[i].0.same(&dl[j].0) by {
            assert(!table[i].0.same(&table[j].0));
        }
        lemma_without_distinct(dl, d);
        let w = without(table, d);
        let rest = without(dl, d);
        assert forall|i: int, j: int| 0 <= i < j < w.len() implies !w[i].0.same(&w[j].0) by {
            if j < rest.len() {
                assert(!rest[i].0.same(&rest[j].0));
            } else {
                lemma_without_members(dl, d, i);
                let k = choose|k: int| 0 <= k < dl.len() && dl[k] == rest[i];
                assert(!table[k].0.same(&table[table.len() - 1].0));
            }
        }
    }
}

/// The entries that are alive are entries of the table whose deadline has
/// not passed.
pub proof fn lemma_alive_members(table: Seq<(TestDesc, u64)>, now: u64, i: int)
    requires
        0 <= i < alive(table, now).len(),
    ensures
        table.contains(alive(table, now)[i]),
        alive(table, now)[i].1 > now,
    decreases table.len(),
{
    if table.len() > 0 {
        let rest = alive(table.drop_last(), now);
        if i < rest.len() {
            lemma_alive_members(table.drop_last(), now, i);
            let k = choose|k: int| 0 <= k < table.drop_last().len() && table.drop_last()[k] == rest[i];
            assert(table[k] == rest[i]);
        } else {
            assert(table[table.len() - 1] == table.last());
        }
    }
}

/// A table in which no test stands twice stays so without the tests that are due.
pub proof fn lemma_alive_distinct(table: Seq<(TestDesc, u64)>, now: u64)
    requires
        distinct_keys(table),
    ensures
        distinct_keys(alive(table, now)),
    decreases table.len(),
{
    if table.len() > 0 {
        let dl = table.drop_last();
        assert forall|i: int, j: int| 0 <= i < j < dl.len() implies !dl[i].0.same(&dl[j].0) by {
            assert(!table[i].0.same(&table[j].0));
        }
        lemma_alive_distinct(dl, now);
        let w = alive(table, now);
        let rest = alive(dl, now);
        assert forall|i: int, j: int| 0 <= i < j < w.len() implies !w[i].0.same(&w[j].0) by {
            if j < rest.len() {
                assert(!rest[i].0.same(&rest[j].0));
            } else {
                lemma_alive_members(dl, now, i);
                let k = choose|k: int| 0 <= k < dl.len() && dl[k] == rest[i];
                assert(!table[k].0.same(&table[table.len() - 1].0));
            }
        }
    }
}

/// The running tests that have a deadline, each with its own.
pub struct TimeoutTable {
    entries: Vec<(TestDesc, u64)>,
}

impl View for TimeoutTable {
    type V = Seq<(TestDesc, u64)>;

    closed spec fn view(&self) -> Seq<(TestDesc, u64)> {
        self.entries@
    }
}

impl TimeoutTable {
    /// A table with no test in it.
    pub fn new() -> (r: Self)
        ensures
            r@.len() == 0,
    {
        TimeoutTable { entries: Vec::new() }
    }

    /// How many tests have a deadline.
    pub fn len(&self) -> (r: usize)
        ensures
            r == self@.len(),
    {
        self.entries.len()
    }

    /// Takes the test out of the table, if it is there.
    pub fn remove(&mut self, desc: &TestDesc)
        ensures
            final(self)@ == without(old(self)@, *desc),
            deadline_of(final(self)@, *desc) is None,
            distinct_keys(old(self)@) ==> distinct_keys(final(self)@),
    {
        proof {
            lemma_without_deadlines(self@, *desc, *desc);
        }
        let mut entries: Vec<(TestDesc, u64)> = Vec::new();
        std::mem::swap(&mut entries, &mut self.entries);
        let ghost all = entries@;
        let mut pending = reversed(entries);
        let mut out: Vec<(TestDesc, u64)> = Vec::new();
        let ghost mut done: int = 0;
        while pending.len() > 0
            invariant
                0 <= done <= all.len(),
                pending@.len() == all.len() - done,
                forall|i: int| 0 <= i < pending@.len() ==> pending@[i] == all[all.len() - 1 - i],
                out@ == without(all.take(done), *desc),
            decreases pending.len(),
        {
            let e = pending.pop().unwrap();
            proof {
                assert(all.take(done + 1).drop_last() =~= all.take(done));
                assert(all.take(done + 1).last() == e);
            }
            if !e.0.eq_desc(desc) {
                out.push(e);
            }
            proof {
                done = done + 1;
            }
        }
        proof {
            assert(all.take(done) =~= all);
            if distinct_keys(all) {
                lemma_without_distinct(all, *desc);
            }
        }
        self.entries = out;
    }

    /// Puts the test into the table with its deadline, in place of the
    /// entry that it has there, if it has one.
    pub fn insert(&mut self, desc: TestDesc, deadline: u64)
        ensures
            final(self)@ == without(old(self)@, desc).push((desc, deadline)),
            deadline_of(final(self)@, desc) == Some(deadline),
            distinct_keys(old(self)@) ==> distinct_keys(final(self)@),
    {
        proof {
            lemma_insert_deadlines(self@, desc, deadline, desc);
        }
        self.remove(&desc);
        let ghost rest = self@;
        self.entries.push((desc, deadline));
        proof {
            if distinct_keys(old(self)@) {
                let t = self@;
                assert forall|i: int, j: int| 0 <= i < j < t.len() implies !t[i].0.same(
                    &t[j].0,
                ) by {
                    if j < rest.len() {
                        assert(!rest[i].0.same(&rest[j].0));
                    } else {
                        lemma_without_members(old(self)@, desc, i);
                    }
                }
            }
        }
    }

    /// Takes the tests whose deadline has passed at `now` out of the table,
    /// and hands them back in the table's order.
    pub fn harvest(&mut self, now: u64) -> (out: Vec<TestDesc>)
        ensures
            out@ == expired(old(self)@, now),
            final(self)@ == alive(old(self)@, now),
            distinct_keys(old(self)@) ==> distinct_keys(final(self)@),
    {
        let mut entries: Vec<(TestDesc, u64)> = Vec::new();
        std::mem::swap(&mut entries, &mut self.entries);
        let ghost all = entries@;
        let mut pending = reversed(entries);
        let mut keep: Vec<(TestDesc, u64)> = Vec::new();
        let mut out: Vec<TestDesc> = Vec::new();
        let ghost mut done: int = 0;
        while pending.len() > 0
            invariant
                0 <= done <= all.len(),
                pending@.len() == all.len() - done,
                forall|i: int| 0 <= i < pending@.len() ==> pending@[i] == all[all.len() - 1 - i],
                keep@ == alive(all.take(done), now),
                out@ == expired(all.take(done), now),
            decreases pending.len(),
        {
            let e = pending.pop().unwrap();
            proof {
                assert(all.take(done + 1).drop_last() =~= all.take(done));
                assert(all.take(done + 1).last() == e);
            }
            if e.1 <= now {
                out.push(e.0);
            } else {
                keep.push(e);
            }
            proof {
                done = done + 1;
            }
        }
        proof {
            assert(all.take(done) =~= all);
            if distinct_keys(all) {
                lemma_alive_distinct(all, now);
            }
        }
        self.entries = keep;
        out
    }

    /// How long to wait for a result at `now`.
    pub fn next_timeout(&self, now: u64) -> (r: Option<u64>)
        ensures
            r == next_timeout(self@, now),
    {
        if self.entries.len() == 0 {
            return None;
        }
        let mut best: u64 = u64::MAX;
        let mut i: usize = 0;
        while i < self.entries.len()
            invariant
                i <= self.entries.len(),
                best == earliest(self.entries@.take(i as int), u64::MAX),
            decreases self.entries.len() - i,
        {
            proof {
                assert(self.entries@.take(i + 1).drop_last() =~= self.entries@.take(i as int));
                assert(self.entries@.take(i + 1).last() == self.entries@[i as int]);
            }
            if self.entries[i].1 < best {
                best = self.entries[i].1;
            }
            i += 1;
        }
        assert(self.entries@.take(i as int) =~= self.entries@);
        if best >= now {
            Some(best - now)
        } else {
            Some(0)
        }
    }
}

/// The deadline of a test that starts at `now`.
pub fn deadline_for(now: u64) -> (r: u64)
    ensures
        r == deadline_at(now),
{
    now.saturating_add(TEST_WARN_TIMEOUT_NS)
}

} // verus!
