//! Lists that are taken apart.

use vstd::prelude::*;

verus! {

/// How many of the first `n` numbers have a property.
pub open spec fn count(p: spec_fn(int) -> bool, n: nat) -> nat
    decreases n,
{
    if n == 0 {
        0
    } else {
        count(p, (n - 1) as nat) + if p(n - 1) {
            1nat
        } else {
            0nat
        }
    }
}

/// The elements of `list`, last first.
pub fn reversed<T>(list: Vec<T>) -> (r: Vec<T>)
    ensures
        r@ == list@.reverse(),
{
    let ghost all = list@;
    let mut left = list;
    let mut out: Vec<T> = Vec::new();
    while left.len() > 0
        invariant
            left@.len() + out@.len() == all.len(),
            left@ == all.take(left@.len() as int),
            forall|i: int| 0 <= i < out@.len() ==> out@[i] == all[all.len() - 1 - i],
        decreases left@.len(),
    {
        let ghost n = left@.len();
        match left.pop() {
            Some(x) => {
                out.push(x);
                assert(left@ =~= all.take(n as int - 1));
            },
            None => {},
        }
    }
    assert(out@ =~= all.reverse());
    out
}

} // verus!
