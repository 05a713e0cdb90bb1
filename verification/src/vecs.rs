//! Vectors whose elements are moved, not copied.
use vstd::prelude::*;

verus! {

/// The elements in reverse order.
pub fn reversed<T>(v: Vec<T>) -> (r: Vec<T>)
    ensures
        r@ == v@.reverse(),
{
    let mut v = v;
    let mut r: Vec<T> = Vec::new();
    let ghost all = v@;
    while v.len() > 0
        invariant
            v@ == all.take(all.len() - r@.len()),
            r@.len() <= all.len(),
            forall|i: int| 0 <= i < r@.len() ==> r@[i] == all[all.len() - 1 - i],
        decreases v.len(),
    {
        let x = v.pop().unwrap();
        r.push(x);
        assert(v@ =~= all.take(all.len() - r@.len()));
    }
    assert(r@ =~= all.reverse());
    r
}

} // verus!
