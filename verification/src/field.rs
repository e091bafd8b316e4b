//! Per-cell fields: making, copying and scaling them.

use crate::scalar::{spec_zero, Scalar};
use vstd::prelude::*;

verus! {

/// A field of `n` zeros.
pub open spec fn zeros<S: Scalar>(n: int) -> Seq<S> {
    Seq::new(n as nat, |k: int| spec_zero::<S>())
}

/// Every value of `d` times `factor`.
pub open spec fn decayed<S: Scalar>(d: Seq<S>, factor: S) -> Seq<S> {
    Seq::new(d.len(), |k: int| d[k].spec_times(factor))
}

/// A field of `n` copies of `v`.
pub fn filled<S: Scalar>(n: usize, v: S) -> (r: Vec<S>)
    ensures
        r@ == Seq::new(n as nat, |k: int| v),
{
    let mut r: Vec<S> = Vec::new();
    let mut i: usize = 0;
    while i < n
        invariant
            i <= n,
            r@ == Seq::new(i as nat, |k: int| v),
        decreases n - i,
    {
        r.push(v);
        assert(r@ =~= Seq::new((i + 1) as nat, |k: int| v));
        i += 1;
    }
    r
}

/// A copy of `v`.
pub fn copy_of<S: Scalar>(v: &[S]) -> (r: Vec<S>)
    ensures
        r@ == v@,
{
    let mut r: Vec<S> = Vec::new();
    let mut i: usize = 0;
    while i < v.len()
        invariant
            i <= v@.len(),
            r@ == v@.take(i as int),
        decreases v@.len() - i,
    {
        r.push(v[i]);
        assert(r@ =~= v@.take(i + 1));
        i += 1;
    }
    assert(v@.take(v@.len() as int) =~= v@);
    r
}

/// Multiplies every value of `d` by `factor`.
pub fn decay<S: Scalar>(d: &mut [S], factor: S)
    ensures
        final(d)@ == decayed(old(d)@, factor),
{
    let ghost start = d@;
    let n: usize = d.len();
    let mut i: usize = 0;
    while i < n
        invariant
            i <= n,
            n == start.len(),
            d@.len() == n,
            forall|k: int| 0 <= k < i ==> d@[k] == start[k].spec_times(factor),
            forall|k: int| i <= k < n ==> d@[k] == start[k],
        decreases n - i,
    {
        let v = d[i].times(factor);
        d[i] = v;
        i += 1;
    }
    assert(d@ =~= decayed(start, factor));
}

} // verus!
