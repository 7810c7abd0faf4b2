//! Direct O(N*M) convolution, in its input-side and output-side forms.
use vstd::prelude::*;
use crate::model::{
    abs, at, conv_at, fits, is_conv, lemma_at_le_mag, lemma_mag_nonneg, lemma_mag_take_le,
    lemma_mul_abs_le, lemma_partial_bound, lemma_partial_flat, lemma_partial_zero, mag, partial,
};

verus! {

/// A buffer of `len` zeros.
pub fn zeros(len: usize) -> (r: Vec<i64>)
    ensures
        r@ == Seq::new(len as nat, |i: int| 0i64),
{
    let mut r: Vec<i64> = Vec::new();
    let mut i: usize = 0;
    while i < len
        invariant
            i <= len,
            r@ == Seq::new(i as nat, |j: int| 0i64),
        decreases len - i,
    {
        r.push(0);
        i = i + 1;
    }
    r
}

/// Bounds on one product `h[k] * x[i]` and on the partial sum it completes.
proof fn lemma_step_bounds(x: Seq<i64>, h: Seq<i64>, n: int, k: int)
    requires
        0 <= k < h.len(),
        fits(x, h),
    ensures
        abs(at(h, k) * at(x, n - k)) <= i64::MAX,
        abs(partial(x, h, n, k + 1)) <= i64::MAX,
        abs(partial(x, h, n, k)) <= i64::MAX,
{
    lemma_at_le_mag(h, k);
    lemma_at_le_mag(x, n - k);
    lemma_mul_abs_le(at(h, k), at(x, n - k), mag(h), mag(x));
    lemma_partial_bound(x, h, n, k + 1);
    lemma_partial_bound(x, h, n, k);
    lemma_mag_take_le(h, k + 1);
    lemma_mag_take_le(h, k);
    lemma_mag_nonneg(x);
    assert(mag(h.take(k + 1)) * mag(x) <= mag(h) * mag(x)) by (nonlinear_arith)
        requires
            0 <= mag(h.take(k + 1)) <= mag(h),
            0 <= mag(x),
    ;
    assert(mag(h.take(k)) * mag(x) <= mag(h) * mag(x)) by (nonlinear_arith)
        requires
            0 <= mag(h.take(k)) <= mag(h),
            0 <= mag(x),
    ;
    assert(mag(h) * mag(x) == mag(x) * mag(h)) by (nonlinear_arith);
    assert(mag(h) * mag(x) == mag(h) * mag(x));
}

/// Input-side form: for each kernel tap `k`, add `h[k] * x[i]` into `y[k + i]`.
pub fn input_side(x: &Vec<i64>, h: &Vec<i64>) -> (y: Vec<i64>)
    requires
        x.len() >= 1,
        h.len() >= 1,
        fits(x@, h@),
    ensures
        is_conv(y@, x@, h@),
{
    let ylen = x.len() + h.len() - 1;
    let mut y = zeros(ylen);
    let mut k: usize = 0;
    while k < h.len()
        invariant
            k <= h.len(),
            fits(x@, h@),
            ylen == x.len() + h.len() - 1,
            y.len() == ylen,
            forall|n: int| 0 <= n < ylen ==> #[trigger] y@[n] as int == partial(x@, h@, n, k as int),
        decreases h.len() - k,
    {
        let mut i: usize = 0;
        while i < x.len()
            invariant
                k < h.len(),
                i <= x.len(),
                fits(x@, h@),
                ylen == x.len() + h.len() - 1,
                y.len() == ylen,
                forall|n: int|
                    0 <= n < ylen ==> #[trigger] y@[n] as int == partial(x@, h@, n, k as int) + (
                    if k <= n < k + i {
                        at(h@, k as int) * at(x@, n - k)
                    } else {
                        0
                    }),
            decreases x.len() - i,
        {
            proof {
                lemma_step_bounds(x@, h@, (k + i) as int, k as int);
            }
            let p = h[k] * x[i];
            y.set(k + i, y[k + i] + p);
            i = i + 1;
        }
        k = k + 1;
    }
    y
}

/// Output-side form: coefficient `n` sums `h[k] * x[n - k]` over the inclusive
/// range `max(0, n - N + 1) ..= min(n, M - 1)`.
pub fn output_side(x: &Vec<i64>, h: &Vec<i64>) -> (y: Vec<i64>)
    requires
        x.len() >= 1,
        h.len() >= 1,
        fits(x@, h@),
    ensures
        is_conv(y@, x@, h@),
{
    let xlen = x.len();
    let hlen = h.len();
    let ylen = xlen + hlen - 1;
    let mut y: Vec<i64> = Vec::new();
    let mut n: usize = 0;
    while n < ylen
        invariant
            xlen == x.len(),
            hlen == h.len(),
            xlen >= 1,
            hlen >= 1,
            fits(x@, h@),
            ylen == xlen + hlen - 1,
            n <= ylen,
            y.len() == n,
            forall|j: int| 0 <= j < n ==> #[trigger] y@[j] as int == conv_at(x@, h@, j),
        decreases ylen - n,
    {
        let lower: usize = if n + 1 > xlen { n + 1 - xlen } else { 0 };
        let upper: usize = if n < hlen - 1 { n } else { hlen - 1 };
        proof {
            assert forall|j: int| 0 <= j < lower implies #[trigger] at(x@, n - j) == 0 by {}
            lemma_partial_zero(x@, h@, n as int, lower as int);
        }
        let mut acc: i64 = 0;
        let mut k: usize = lower;
        while k <= upper
            invariant
                xlen == x.len(),
                hlen == h.len(),
                fits(x@, h@),
                n < ylen,
                lower <= k <= upper + 1,
                upper < hlen,
                upper <= n,
                n + 1 <= lower + xlen,
                acc as int == partial(x@, h@, n as int, k as int),
            decreases upper + 1 - k,
        {
            proof {
                lemma_step_bounds(x@, h@, n as int, k as int);
            }
            acc = acc + h[k] * x[n - k];
            k = k + 1;
        }
        proof {
            assert forall|j: int| upper + 1 <= j < hlen implies #[trigger] at(x@, n - j) == 0 by {}
            lemma_partial_flat(x@, h@, n as int, (upper + 1) as int, hlen as int);
        }
        y.push(acc);
        n = n + 1;
    }
    y
}

} // verus!
