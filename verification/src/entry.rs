//! What the entry points of a test program decide: which entries a static
//! registry hands over, and the status with which the program ends.
use vstd::prelude::*;

use crate::types::{TestDescAndFn, TestFn};

verus! {

/// The status of a program whose run succeeded.
pub const EXIT_SUCCESS: i32 = 0;

/// The status of a program whose run failed, or could not be reported.
pub const EXIT_FAILURE: i32 = 101;

/// The body of the entry lives as long as the program, so that the entry can be copied.
pub open spec fn is_static(t: &TestDescAndFn) -> bool {
    t.testfn is StaticTestFn || t.testfn is StaticBenchFn
}

/// The entry is the same kind of entry as the other, under the same descriptor.
pub open spec fn is_copy_of(c: &TestDescAndFn, t: &TestDescAndFn) -> bool {
    &&& c.desc == t.desc
    &&& c.testfn is StaticTestFn == t.testfn is StaticTestFn
    &&& c.testfn is StaticBenchFn == t.testfn is StaticBenchFn
}

/// A copy of the entry, if its body lives as long as the program.
pub fn copy_static(t: &TestDescAndFn) -> (r: Option<TestDescAndFn>)
    ensures
        is_static(t) ==> (r matches Some(c) && is_copy_of(&c, t)),
        !is_static(t) ==> r is None,
{
    match &t.testfn {
        TestFn::StaticTestFn(f) => Some(
            TestDescAndFn { testfn: TestFn::StaticTestFn(*f), desc: t.desc.clone() },
        ),
        TestFn::StaticBenchFn(f) => Some(
            TestDescAndFn { testfn: TestFn::StaticBenchFn(*f), desc: t.desc.clone() },
        ),
        _ => None,
    }
}

/// Copies of the entries of a static registry, in their order: `None` if the
/// body of an entry is owned by it, since such an entry cannot be copied.
pub fn static_tests(tests: &[&TestDescAndFn]) -> (r: Option<Vec<TestDescAndFn>>)
    ensures
        match r {
            Some(owned) => {
                &&& owned@.len() == tests@.len()
                &&& forall|i: int|
                    0 <= i < tests@.len() ==> is_static(tests@[i]) && is_copy_of(
                        &owned@[i],
                        tests@[i],
                    )
            },
            None => exists|i: int| 0 <= i < tests@.len() && !is_static(tests@[i]),
        },
{
    let mut owned: Vec<TestDescAndFn> = Vec::new();
    let mut i: usize = 0;
    while i < tests.len()
        invariant
            i <= tests.len(),
            owned@.len() == i,
            forall|k: int|
                0 <= k < i ==> is_static(tests@[k]) && is_copy_of(&owned@[k], tests@[k]),
        decreases tests.len() - i,
    {
        match copy_static(tests[i]) {
            Some(t) => {
                owned.push(t);
            },
            None => {
                return None;
            },
        }
        i += 1;
    }
    Some(owned)
}

/// The status with which a test program ends: that of success if the run
/// was reported and no entry failed, that of failure if an entry failed or
/// the report could not be written.
pub fn exit_status(run: Result<bool, ()>) -> (code: i32)
    ensures
        code == if run == Ok::<bool, ()>(true) {
            EXIT_SUCCESS
        } else {
            EXIT_FAILURE
        },
{
    match run {
        Ok(true) => EXIT_SUCCESS,
        _ => EXIT_FAILURE,
    }
}

} // verus!
