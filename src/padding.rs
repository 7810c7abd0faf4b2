//! Buffer sizing and zero padding.
use vstd::prelude::*;
use crate::model::is_pow2;

verus! {

/// The transform length for a result of `ylen` samples: the smallest power of
/// two that is at least `ylen`.
pub fn transform_len(ylen: usize) -> (r: usize)
    requires
        ylen <= usize::MAX / 2,
    ensures
        is_pow2(r as int),
        r >= ylen,
        r == 1 || r / 2 < ylen,
{
    let mut p: usize = 1;
    while p < ylen
        invariant
            ylen <= usize::MAX / 2,
            is_pow2(p as int),
            p == 1 || p / 2 < ylen,
            p <= 2 * ylen + 1,
        decreases 2 * ylen + 1 - p,
    {
        assert(is_pow2((2 * p) as int)) by {
            assert((2 * p) as int / 2 == p as int);
        }
        p = 2 * p;
    }
    p
}

/// `x` followed by copies of `zero` up to length `len`.
pub fn zero_pad<T: Copy>(x: &Vec<T>, len: usize, zero: T) -> (r: Vec<T>)
    requires
        x.len() <= len,
    ensures
        r@ == x@ + Seq::new((len - x.len()) as nat, |i: int| zero),
{
    let mut r: Vec<T> = Vec::new();
    let mut i: usize = 0;
    while i < len
        invariant
            x.len() <= len,
            i <= len,
            r@ == (x@ + Seq::new((len - x.len()) as nat, |i: int| zero)).take(i as int),
        decreases len - i,
    {
        if i < x.len() {
            r.push(x[i]);
        } else {
            r.push(zero);
        }
        proof {
            let full = x@ + Seq::new((len - x.len()) as nat, |i: int| zero);
            assert(r@ =~= full.take(i + 1));
        }
        i = i + 1;
    }
    proof {
        let full = x@ + Seq::new((len - x.len()) as nat, |i: int| zero);
        assert(full.take(len as int) =~= full);
    }
    r
}

/// The first `len` entries of `y`.
pub fn truncate<T: Copy>(y: &Vec<T>, len: usize) -> (r: Vec<T>)
    requires
        len <= y.len(),
    ensures
        r@ == y@.take(len as int),
{
    let mut r: Vec<T> = Vec::new();
    let mut i: usize = 0;
    while i < len
        invariant
            len <= y.len(),
            i <= len,
            r@ == y@.take(i as int),
        decreases len - i,
    {
        r.push(y[i]);
        proof {
            assert(r@ =~= y@.take(i + 1));
        }
        i = i + 1;
    }
    r
}

} // verus!
