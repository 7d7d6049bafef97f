//! Vectors taken apart from their front.

use vstd::prelude::*;

verus! {

/// The items of `v`, last first.
pub fn reversed<T>(v: Vec<T>) -> (r: Vec<T>)
    ensures
        r@ == v@.reverse(),
{
    let mut v = v;
    let ghost all = v@;
    let mut out: Vec<T> = Vec::new();
    while v.len() > 0
        invariant
            v@.len() + out@.len() == all.len(),
            v@ == all.take(v@.len() as int),
            forall|j: int| 0 <= j < out@.len() ==> out@[j] == all[all.len() - 1 - j],
        decreases v@.len(),
    {
        let ghost before = v@;
        let item = v.pop();
        proof {
            assert(v@ =~= all.take(v@.len() as int));
            assert(before.last() == all[v@.len() as int]);
        }
        match item {
            Some(x) => {
                out.push(x);
            },
            None => {},
        }
    }
    assert(out@ =~= all.reverse());
    out
}

} // verus!
